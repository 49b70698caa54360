//! The authoritative 32-byte on-card record: layout, CRC-16/CCITT
//! guard, encoder and decoder, together with the laws that the codec
//! round-trips and that the CRC catches any single corrupted byte.

use vstd::prelude::*;

verus! {

use crate::model::Direction;
use vstd::string::StringSliceAdditionalSpecFns;
use crate::wire::{
    u16_lo, u16_hi, u16_from_le, u32_byte0, u32_byte1, u32_byte2, u32_byte3, u32_from_le,
    lemma_u16_le, lemma_u32_le, u16_lo_byte, u16_hi_byte, u16_from_le_bytes, u32_le_bytes,
    u32_from_le_bytes,
};

pub const CARD_DATA_LEN: usize = 32;

pub const CARD_DATA_BLOCK_START: u8 = 8;

pub const CARD_DATA_BLOCK_COUNT: u8 = 2;

/// Why a byte slice failed to parse as a card record.
#[derive(Clone, Copy, Debug, PartialEq, Eq, Structural)]
pub enum CardDataParseError {
    BadLength,
    BadMagic,
    BadVersion,
    BadUidLen,
    BadCrc,
    UnknownStatus,
}

/// The diagnostic label of a parse error.
pub open spec fn spec_err_str(e: CardDataParseError) -> Seq<char> {
    match e {
        CardDataParseError::BadLength => "bad_length"@,
        CardDataParseError::BadMagic => "bad_magic"@,
        CardDataParseError::BadVersion => "bad_version"@,
        CardDataParseError::BadUidLen => "bad_uid_len"@,
        CardDataParseError::BadCrc => "bad_crc"@,
        CardDataParseError::UnknownStatus => "unknown_status"@,
    }
}

impl CardDataParseError {
    pub fn as_str(&self) -> (r: &'static str)
        ensures
            r@ == spec_err_str(*self),
            self is BadLength ==> r@ == "bad_length"@,
            self is BadMagic ==> r@ == "bad_magic"@,
            self is BadVersion ==> r@ == "bad_version"@,
            self is BadUidLen ==> r@ == "bad_uid_len"@,
            self is BadCrc ==> r@ == "bad_crc"@,
            self is UnknownStatus ==> r@ == "unknown_status"@,
    {
        match self {
            CardDataParseError::BadLength => "bad_length",
            CardDataParseError::BadMagic => "bad_magic",
            CardDataParseError::BadVersion => "bad_version",
            CardDataParseError::BadUidLen => "bad_uid_len",
            CardDataParseError::BadCrc => "bad_crc",
            CardDataParseError::UnknownStatus => "unknown_status",
        }
    }
}

/// State a card can be in, as stored in its status byte.
#[derive(Clone, Copy, Debug, PartialEq, Eq, Structural)]
pub enum CardStatus {
    Idle,
    InTrip,
    Blocked,
}

pub open spec fn spec_status_from_u8(value: u8) -> Option<CardStatus> {
    if value == 0 {
        Some(CardStatus::Idle)
    } else if value == 1 {
        Some(CardStatus::InTrip)
    } else if value == 2 {
        Some(CardStatus::Blocked)
    } else {
        None
    }
}

/// The label of a card status.
pub open spec fn spec_status_str(s: CardStatus) -> Seq<char> {
    match s {
        CardStatus::Idle => "idle"@,
        CardStatus::InTrip => "in_trip"@,
        CardStatus::Blocked => "blocked"@,
    }
}

impl CardStatus {
    pub open spec fn spec_u8(self) -> u8 {
        match self {
            CardStatus::Idle => 0,
            CardStatus::InTrip => 1,
            CardStatus::Blocked => 2,
        }
    }

    pub fn from_u8(value: u8) -> (r: Option<Self>)
        ensures
            r == spec_status_from_u8(value),
    {
        match value {
            0 => Some(CardStatus::Idle),
            1 => Some(CardStatus::InTrip),
            2 => Some(CardStatus::Blocked),
            _ => None,
        }
    }

    pub fn as_u8(self) -> (r: u8)
        ensures
            r == self.spec_u8(),
    {
        match self {
            CardStatus::Idle => 0,
            CardStatus::InTrip => 1,
            CardStatus::Blocked => 2,
        }
    }

    pub fn as_str(self) -> (r: &'static str)
        ensures
            r@ == spec_status_str(self),
            self is Idle ==> r@ == "idle"@,
            self is InTrip ==> r@ == "in_trip"@,
            self is Blocked ==> r@ == "blocked"@,
    {
        match self {
            CardStatus::Idle => "idle",
            CardStatus::InTrip => "in_trip",
            CardStatus::Blocked => "blocked",
        }
    }
}

/// The decoded on-card record.
#[derive(Clone, Copy, Debug, PartialEq, Eq)]
pub struct CardData {
    pub uid: [u8; 4],
    pub balance_cents: u32,
    pub status: CardStatus,
    pub entry_station_id: Option<u16>,
    pub last_route_id: Option<u16>,
    pub last_direction: Option<Direction>,
    pub last_board_station_id: Option<u16>,
    pub last_alight_station_id: Option<u16>,
}

// ---------------------------------------------------------------
// CRC-16/CCITT: initial 0xFFFF, polynomial 0x1021, no reflection,
// no final XOR.
// ---------------------------------------------------------------

pub open spec fn crc16_round(c: u16) -> u16 {
    if c & 0x8000 != 0 {
        (c << 1) ^ 0x1021
    } else {
        c << 1
    }
}

pub open spec fn crc16_rounds(c: u16, k: nat) -> u16
    decreases k,
{
    if k == 0 {
        c
    } else {
        crc16_round(crc16_rounds(c, (k - 1) as nat))
    }
}

pub open spec fn crc16_step(c: u16, b: u8) -> u16 {
    crc16_rounds(c ^ ((b as u16) << 8), 8)
}

pub open spec fn crc16_fold(c: u16, s: Seq<u8>) -> u16
    decreases s.len(),
{
    if s.len() == 0 {
        c
    } else {
        crc16_fold(crc16_step(c, s[0]), s.drop_first())
    }
}

pub open spec fn crc16_of(s: Seq<u8>) -> u16 {
    crc16_fold(0xFFFF, s)
}

/// Computes the CRC of a byte slice.
pub fn crc16(data: &[u8]) -> (r: u16)
    ensures
        r == crc16_of(data@),
{
    let mut crc: u16 = 0xFFFF;
    let mut i: usize = 0;
    proof {
        assert(data@.skip(0) =~= data@);
    }
    while i < data.len()
        invariant
            i <= data@.len(),
            crc16_of(data@) == crc16_fold(crc, data@.skip(i as int)),
        decreases data@.len() - i,
    {
        let b = data[i];
        let start: u16 = crc ^ ((b as u16) << 8);
        let mut x: u16 = start;
        let mut k: usize = 0;
        while k < 8
            invariant
                k <= 8,
                x == crc16_rounds(start, k as nat),
            decreases 8 - k,
        {
            if x & 0x8000 != 0 {
                x = (x << 1) ^ 0x1021;
            } else {
                x = x << 1;
            }
            k = k + 1;
        }
        proof {
            assert(x == crc16_step(crc, b));
            assert(data@.skip(i as int)[0] == data@[i as int]);
            assert(data@.skip(i as int).drop_first() =~= data@.skip(i as int + 1));
        }
        crc = x;
        i = i + 1;
    }
    proof {
        assert(data@.skip(data@.len() as int) =~= Seq::<u8>::empty());
    }
    crc
}

proof fn lemma_crc16_round_inj(a: u16, b: u16)
    by (bit_vector)
    requires
        crc16_round(a) == crc16_round(b),
    ensures
        a == b,
{
}

proof fn lemma_xor_hi_distinct(c: u16, a: u8, b: u8)
    by (bit_vector)
    requires
        a != b,
    ensures
        c ^ ((a as u16) << 8) != c ^ ((b as u16) << 8),
{
}

proof fn lemma_xor_state_distinct(c1: u16, c2: u16, a: u8)
    by (bit_vector)
    requires
        c1 != c2,
    ensures
        c1 ^ ((a as u16) << 8) != c2 ^ ((a as u16) << 8),
{
}

proof fn lemma_crc16_rounds_inj(a: u16, b: u16, k: nat)
    requires
        a != b,
    ensures
        crc16_rounds(a, k) != crc16_rounds(b, k),
    decreases k,
{
    if k > 0 {
        lemma_crc16_rounds_inj(a, b, (k - 1) as nat);
        if crc16_rounds(a, k) == crc16_rounds(b, k) {
            lemma_crc16_round_inj(crc16_rounds(a, (k - 1) as nat), crc16_rounds(b, (k - 1) as nat));
        }
    }
}

proof fn lemma_crc16_step_inj_byte(c: u16, a: u8, b: u8)
    requires
        a != b,
    ensures
        crc16_step(c, a) != crc16_step(c, b),
{
    lemma_xor_hi_distinct(c, a, b);
    lemma_crc16_rounds_inj(c ^ ((a as u16) << 8), c ^ ((b as u16) << 8), 8);
}

proof fn lemma_crc16_step_inj_state(c1: u16, c2: u16, b: u8)
    requires
        c1 != c2,
    ensures
        crc16_step(c1, b) != crc16_step(c2, b),
{
    lemma_xor_state_distinct(c1, c2, b);
    lemma_crc16_rounds_inj(c1 ^ ((b as u16) << 8), c2 ^ ((b as u16) << 8), 8);
}

proof fn lemma_crc16_fold_inj(c1: u16, c2: u16, s: Seq<u8>)
    requires
        c1 != c2,
    ensures
        crc16_fold(c1, s) != crc16_fold(c2, s),
    decreases s.len(),
{
    if s.len() > 0 {
        lemma_crc16_step_inj_state(c1, c2, s[0]);
        lemma_crc16_fold_inj(crc16_step(c1, s[0]), crc16_step(c2, s[0]), s.drop_first());
    }
}

/// Two byte sequences that differ in exactly one position have
/// different CRCs.
pub proof fn lemma_crc16_detects_single_byte(c: u16, s1: Seq<u8>, s2: Seq<u8>, j: int)
    requires
        s1.len() == s2.len(),
        0 <= j < s1.len(),
        s1[j] != s2[j],
        forall|k: int| 0 <= k < s1.len() && k != j ==> s1[k] == s2[k],
    ensures
        crc16_fold(c, s1) != crc16_fold(c, s2),
    decreases j,
{
    if j == 0 {
        lemma_crc16_step_inj_byte(c, s1[0], s2[0]);
        assert(s1.drop_first() =~= s2.drop_first());
        lemma_crc16_fold_inj(crc16_step(c, s1[0]), crc16_step(c, s2[0]), s1.drop_first());
    } else {
        assert(s1[0] == s2[0]);
        lemma_crc16_detects_single_byte(crc16_step(c, s1[0]), s1.drop_first(), s2.drop_first(), j - 1);
    }
}

// ---------------------------------------------------------------
// Record layout
// ---------------------------------------------------------------

pub open spec fn opt_u16_encode(o: Option<u16>) -> u16 {
    match o {
        Some(v) => v,
        None => 0xFFFF,
    }
}

pub open spec fn opt_u16_decode(v: u16) -> Option<u16> {
    if v == 0xFFFF {
        None
    } else {
        Some(v)
    }
}

pub open spec fn dir_encode(o: Option<Direction>) -> u8 {
    match o {
        Some(Direction::Up) => 0,
        Some(Direction::Down) => 1,
        None => 0xFF,
    }
}

pub open spec fn dir_decode(v: u8) -> Option<Direction> {
    if v == 0 {
        Some(Direction::Up)
    } else if v == 1 {
        Some(Direction::Down)
    } else {
        None
    }
}

/// The byte at offset `i` of the 30-byte record body.
pub open spec fn card_body_byte(c: CardData, i: int) -> u8 {
    if i == 0 {
        0x54
    } else if i == 1 {
        0x54
    } else if i == 2 {
        0x01
    } else if i == 3 {
        4
    } else if 4 <= i < 8 {
        c.uid@[i - 4]
    } else if 12 <= i < 16 {
        if i == 12 {
            u32_byte0(c.balance_cents)
        } else if i == 13 {
            u32_byte1(c.balance_cents)
        } else if i == 14 {
            u32_byte2(c.balance_cents)
        } else {
            u32_byte3(c.balance_cents)
        }
    } else if i == 16 {
        c.status.spec_u8()
    } else if i == 18 {
        u16_lo(opt_u16_encode(c.entry_station_id))
    } else if i == 19 {
        u16_hi(opt_u16_encode(c.entry_station_id))
    } else if i == 20 {
        u16_lo(opt_u16_encode(c.last_route_id))
    } else if i == 21 {
        u16_hi(opt_u16_encode(c.last_route_id))
    } else if i == 22 {
        dir_encode(c.last_direction)
    } else if i == 24 {
        u16_lo(opt_u16_encode(c.last_board_station_id))
    } else if i == 25 {
        u16_hi(opt_u16_encode(c.last_board_station_id))
    } else if i == 26 {
        u16_lo(opt_u16_encode(c.last_alight_station_id))
    } else if i == 27 {
        u16_hi(opt_u16_encode(c.last_alight_station_id))
    } else {
        0
    }
}

/// The first 30 bytes of the encoded record.
pub open spec fn card_body(c: CardData) -> Seq<u8> {
    Seq::new(30, |i: int| card_body_byte(c, i))
}

/// The full 32-byte encoded record: body plus little-endian CRC.
pub open spec fn card_bytes(c: CardData) -> Seq<u8> {
    card_body(c).push(u16_lo(crc16_of(card_body(c)))).push(u16_hi(crc16_of(card_body(c))))
}

/// The structural or CRC error a decoder reports for these bytes, if
/// any; `None` means the bytes parse as a card record.
pub open spec fn parse_err(data: Seq<u8>) -> Option<CardDataParseError> {
    if data.len() < 32 {
        Some(CardDataParseError::BadLength)
    } else if data[0] != 0x54 || data[1] != 0x54 {
        Some(CardDataParseError::BadMagic)
    } else if data[2] != 0x01 {
        Some(CardDataParseError::BadVersion)
    } else if data[3] != 4 {
        Some(CardDataParseError::BadUidLen)
    } else if u16_from_le(data[30], data[31]) != crc16_of(data.take(30)) {
        Some(CardDataParseError::BadCrc)
    } else if spec_status_from_u8(data[16]) is None {
        Some(CardDataParseError::UnknownStatus)
    } else {
        None
    }
}

/// The record `c` is exactly what these bytes spell out.
pub open spec fn card_matches_bytes(c: CardData, data: Seq<u8>) -> bool {
    &&& data.len() >= 32
    &&& c.uid@ == data.subrange(4, 8)
    &&& c.balance_cents == u32_from_le(data[12], data[13], data[14], data[15])
    &&& Some(c.status) == spec_status_from_u8(data[16])
    &&& c.entry_station_id == opt_u16_decode(u16_from_le(data[18], data[19]))
    &&& c.last_route_id == opt_u16_decode(u16_from_le(data[20], data[21]))
    &&& c.last_direction == dir_decode(data[22])
    &&& c.last_board_station_id == opt_u16_decode(u16_from_le(data[24], data[25]))
    &&& c.last_alight_station_id == opt_u16_decode(u16_from_le(data[26], data[27]))
}

impl CardData {
    /// A blank record for a fresh card: zero balance, idle, no trip
    /// history.
    pub fn new(uid: [u8; 4]) -> (r: Self)
        ensures
            r == (CardData {
                uid,
                balance_cents: 0u32,
                status: CardStatus::Idle,
                entry_station_id: None::<u16>,
                last_route_id: None::<u16>,
                last_direction: None::<Direction>,
                last_board_station_id: None::<u16>,
                last_alight_station_id: None::<u16>,
            }),
    {
        Self {
            uid,
            balance_cents: 0,
            status: CardStatus::Idle,
            entry_station_id: None,
            last_route_id: None,
            last_direction: None,
            last_board_station_id: None,
            last_alight_station_id: None,
        }
    }

    /// Optional station and route ids use `0xFFFF` on the wire for
    /// "none", so a well-formed record never stores that value.
    pub open spec fn wf(self) -> bool {
        &&& (self.entry_station_id matches Some(v) ==> v != 0xFFFF)
        &&& (self.last_route_id matches Some(v) ==> v != 0xFFFF)
        &&& (self.last_board_station_id matches Some(v) ==> v != 0xFFFF)
        &&& (self.last_alight_station_id matches Some(v) ==> v != 0xFFFF)
    }

    pub fn from_bytes(data: &[u8]) -> (r: Option<Self>)
        ensures
            parse_err(data@) is Some ==> r is None,
            parse_err(data@) is None ==> (r matches Some(c) && card_matches_bytes(c, data@)),
    {
        match Self::from_bytes_verbose(data) {
            Ok(c) => Some(c),
            Err(_) => None,
        }
    }

    /// Decodes a record, reporting exactly which check failed.
    pub fn from_bytes_verbose(data: &[u8]) -> (r: Result<Self, CardDataParseError>)
        ensures
            parse_err(data@) matches Some(e) ==> r == Err::<CardData, CardDataParseError>(e),
            parse_err(data@) is None ==> (r matches Ok(c) && card_matches_bytes(c, data@)),
    {
        if data.len() < CARD_DATA_LEN {
            return Err(CardDataParseError::BadLength);
        }
        if data[0] != 0x54 || data[1] != 0x54 {
            return Err(CardDataParseError::BadMagic);
        }
        if data[2] != 0x01 {
            return Err(CardDataParseError::BadVersion);
        }
        if data[3] != 4 {
            return Err(CardDataParseError::BadUidLen);
        }
        let stored_crc = u16_from_le_bytes(data[30], data[31]);
        let computed_crc = crc16_prefix(data, 30);
        if stored_crc != computed_crc {
            return Err(CardDataParseError::BadCrc);
        }
        let status = match CardStatus::from_u8(data[16]) {
            Some(s) => s,
            None => {
                return Err(CardDataParseError::UnknownStatus);
            },
        };
        let uid: [u8; 4] = [data[4], data[5], data[6], data[7]];
        let balance_cents = u32_from_le_bytes(data[12], data[13], data[14], data[15]);
        let entry_station_id = decode_optional_u16(data[18], data[19]);
        let last_route_id = decode_optional_u16(data[20], data[21]);
        let last_direction = decode_direction(data[22]);
        let last_board_station_id = decode_optional_u16(data[24], data[25]);
        let last_alight_station_id = decode_optional_u16(data[26], data[27]);
        let c = Self {
            uid,
            balance_cents,
            status,
            entry_station_id,
            last_route_id,
            last_direction,
            last_board_station_id,
            last_alight_station_id,
        };
        proof {
            assert(c.uid@ =~= data@.subrange(4, 8));
        }
        Ok(c)
    }

    /// Encodes the record into its 32-byte wire form. Encoding is
    /// total: every field value has a byte representation.
    pub fn to_bytes(&self) -> (r: Vec<u8>)
        ensures
            r@ == card_bytes(*self),
            r@.len() == 32,
    {
        let mut out: Vec<u8> = Vec::new();
        out.push(0x54);
        out.push(0x54);
        out.push(0x01);
        out.push(4);
        out.push(self.uid[0]);
        out.push(self.uid[1]);
        out.push(self.uid[2]);
        out.push(self.uid[3]);
        out.push(0);
        out.push(0);
        out.push(0);
        out.push(0);
        let (b0, b1, b2, b3) = u32_le_bytes(self.balance_cents);
        out.push(b0);
        out.push(b1);
        out.push(b2);
        out.push(b3);
        out.push(self.status.as_u8());
        out.push(0);
        push_optional_u16(&mut out, self.entry_station_id);
        push_optional_u16(&mut out, self.last_route_id);
        out.push(encode_direction(self.last_direction));
        out.push(0);
        push_optional_u16(&mut out, self.last_board_station_id);
        push_optional_u16(&mut out, self.last_alight_station_id);
        out.push(0);
        out.push(0);
        proof {
            assert(out@ =~= card_body(*self));
        }
        proof {
            assert(out@.take(30) =~= card_body(*self));
        }
        let crc = crc16_prefix(out.as_slice(), 30);
        out.push(u16_lo_byte(crc));
        out.push(u16_hi_byte(crc));
        proof {
            assert(out@ =~= card_bytes(*self));
        }
        out
    }
}

/// CRC over the first `n` bytes of a slice.
fn crc16_prefix(data: &[u8], n: usize) -> (r: u16)
    requires
        n <= data@.len(),
    ensures
        r == crc16_of(data@.take(n as int)),
{
    let mut crc: u16 = 0xFFFF;
    let mut i: usize = 0;
    proof {
        assert(data@.take(n as int).skip(0) =~= data@.take(n as int));
    }
    while i < n
        invariant
            i <= n,
            n <= data@.len(),
            crc16_of(data@.take(n as int)) == crc16_fold(crc, data@.take(n as int).skip(i as int)),
        decreases n - i,
    {
        let b = data[i];
        let start: u16 = crc ^ ((b as u16) << 8);
        let mut x: u16 = start;
        let mut k: usize = 0;
        while k < 8
            invariant
                k <= 8,
                x == crc16_rounds(start, k as nat),
            decreases 8 - k,
        {
            if x & 0x8000 != 0 {
                x = (x << 1) ^ 0x1021;
            } else {
                x = x << 1;
            }
            k = k + 1;
        }
        proof {
            assert(x == crc16_step(crc, b));
            assert(data@.take(n as int).skip(i as int)[0] == data@[i as int]);
            assert(data@.take(n as int).skip(i as int).drop_first() =~= data@.take(n as int).skip(
                i as int + 1,
            ));
        }
        crc = x;
        i = i + 1;
    }
    proof {
        assert(data@.take(n as int).skip(n as int) =~= Seq::<u8>::empty());
    }
    crc
}

fn push_optional_u16(out: &mut Vec<u8>, value: Option<u16>)
    ensures
        final(out)@ == old(out)@.push(u16_lo(opt_u16_encode(value))).push(u16_hi(opt_u16_encode(value))),
{
    let v: u16 = match value {
        Some(v) => v,
        None => 0xFFFF,
    };
    out.push(u16_lo_byte(v));
    out.push(u16_hi_byte(v));
}

fn decode_optional_u16(lo: u8, hi: u8) -> (r: Option<u16>)
    ensures
        r == opt_u16_decode(u16_from_le(lo, hi)),
{
    let v = u16_from_le_bytes(lo, hi);
    if v == 0xFFFF {
        None
    } else {
        Some(v)
    }
}

fn decode_direction(value: u8) -> (r: Option<Direction>)
    ensures
        r == dir_decode(value),
{
    match value {
        0 => Some(Direction::Up),
        1 => Some(Direction::Down),
        _ => None,
    }
}

fn encode_direction(value: Option<Direction>) -> (r: u8)
    ensures
        r == dir_encode(value),
{
    match value {
        Some(Direction::Up) => 0,
        Some(Direction::Down) => 1,
        None => 0xFF,
    }
}

// ---------------------------------------------------------------
// UID hex parsing
// ---------------------------------------------------------------

pub open spec fn spec_hex_val(b: u8) -> Option<u8> {
    if 0x30 <= b <= 0x39 {
        Some((b - 0x30) as u8)
    } else if 0x61 <= b <= 0x66 {
        Some((b - 0x61 + 10) as u8)
    } else if 0x41 <= b <= 0x46 {
        Some((b - 0x41 + 10) as u8)
    } else {
        None
    }
}

/// The UID spelled by an 8-hex-character byte string, if the string
/// is exactly that.
pub open spec fn spec_uid_from_hex(s: Seq<u8>) -> Option<Seq<u8>> {
    if s.len() != 8 {
        None
    } else if exists|i: int| 0 <= i < 8 && spec_hex_val(s[i]) is None {
        None
    } else {
        Some(
            Seq::new(
                4,
                |i: int| ((spec_hex_val(s[2 * i]).unwrap() * 16) + spec_hex_val(
                    s[2 * i + 1],
                ).unwrap()) as u8,
            ),
        )
    }
}

fn hex_val(byte: u8) -> (r: Option<u8>)
    ensures
        r == spec_hex_val(byte),
        r matches Some(v) ==> v < 16,
{
    if 0x30 <= byte && byte <= 0x39 {
        Some(byte - 0x30)
    } else if 0x61 <= byte && byte <= 0x66 {
        Some(byte - 0x61 + 10)
    } else if 0x41 <= byte && byte <= 0x46 {
        Some(byte - 0x41 + 10)
    } else {
        None
    }
}

/// Decodes an 8-hex-character card id into the 4-byte UID it names.
pub fn decode_uid_hex(input: &str) -> (r: Option<[u8; 4]>)
    ensures
        r matches Some(uid) ==> spec_uid_from_hex(input.spec_bytes()) == Some(uid@),
        r is None ==> spec_uid_from_hex(input.spec_bytes()) is None,
{
    let bytes = input.as_bytes();
    if bytes.len() != 8 {
        return None;
    }
    let mut vals: [u8; 8] = [0; 8];
    let mut i: usize = 0;
    while i < 8
        invariant
            i <= 8,
            bytes@ == input.spec_bytes(),
            bytes@.len() == 8,
            forall|k: int| 0 <= k < i ==> spec_hex_val(bytes@[k]) == Some(vals@[k]),
        decreases 8 - i,
    {
        match hex_val(bytes[i]) {
            Some(v) => {
                vals[i] = v;
            },
            None => {
                proof {
                    assert(spec_hex_val(input.spec_bytes()[i as int]) is None);
                    assert(spec_uid_from_hex(input.spec_bytes()) is None);
                }
                return None;
            },
        }
        i = i + 1;
    }
    let out: [u8; 4] = [
        vals[0] * 16 + vals[1],
        vals[2] * 16 + vals[3],
        vals[4] * 16 + vals[5],
        vals[6] * 16 + vals[7],
    ];
    proof {
        assert(forall|k: int| 0 <= k < 8 ==> (#[trigger] spec_hex_val(bytes@[k]) matches Some(v) && v < 16));
        assert(out@ =~= spec_uid_from_hex(input.spec_bytes()).unwrap());
    }
    Some(out)
}

// ---------------------------------------------------------------
// Codec laws
// ---------------------------------------------------------------

/// Encoding a well-formed record and decoding the bytes yields the
/// record back: the decoder accepts them, and any record that matches
/// them is the one encoded.
pub proof fn lemma_card_round_trip(c: CardData, c2: CardData)
    requires
        c.wf(),
        card_matches_bytes(c2, card_bytes(c)),
    ensures
        parse_err(card_bytes(c)) is None,
        c2 == c,
{
    broadcast use vstd::array::group_array_axioms;

    let body = card_body(c);
    let data = card_bytes(c);
    assert(data.len() == 32);
    assert(data.take(30) =~= body);
    lemma_u16_le(crc16_of(body), 0, 0);
    assert(u16_from_le(data[30], data[31]) == crc16_of(data.take(30)));
    assert(parse_err(data) is None);

    assert(c2.uid@ =~= c.uid@);
    assert(forall|i: int| 0 <= i < 4 ==> c2.uid@[i] == c.uid@[i]);
    assert(c2.uid =~= c.uid);
    lemma_u32_le(c.balance_cents, 0, 0, 0, 0);
    assert(c2.balance_cents == c.balance_cents);
    assert(c2.status == c.status);
    lemma_u16_le(opt_u16_encode(c.entry_station_id), 0, 0);
    lemma_u16_le(opt_u16_encode(c.last_route_id), 0, 0);
    lemma_u16_le(opt_u16_encode(c.last_board_station_id), 0, 0);
    lemma_u16_le(opt_u16_encode(c.last_alight_station_id), 0, 0);
    assert(c2.entry_station_id == c.entry_station_id);
    assert(c2.last_route_id == c.last_route_id);
    assert(c2.last_direction == c.last_direction);
    assert(c2.last_board_station_id == c.last_board_station_id);
    assert(c2.last_alight_station_id == c.last_alight_station_id);
}

/// Corrupting any single byte of an encoded card record makes the
/// decoder fail: with a structural error for the fixed header bytes,
/// with a CRC error anywhere else.
pub proof fn lemma_card_corruption_detected(c: CardData, damaged: Seq<u8>, j: int)
    requires
        damaged.len() == 32,
        0 <= j < 32,
        damaged[j] != card_bytes(c)[j],
        forall|k: int| 0 <= k < 32 && k != j ==> damaged[k] == card_bytes(c)[k],
    ensures
        parse_err(damaged) is Some,
{
    let good = card_bytes(c);
    let body = card_body(c);
    assert(good.take(30) =~= body);
    if j == 0 || j == 1 {
        assert(parse_err(damaged) is Some);
    } else if j == 2 {
        assert(parse_err(damaged) is Some);
    } else if j == 3 {
        assert(parse_err(damaged) is Some);
    } else if j < 30 {
        if parse_err(damaged) is None {
            assert(u16_from_le(damaged[30], damaged[31]) == crc16_of(damaged.take(30)));
            assert(damaged[30] == good[30] && damaged[31] == good[31]);
            lemma_crc16_detects_single_byte(0xFFFF, good.take(30), damaged.take(30), j);
            lemma_u16_le(crc16_of(body), 0, 0);
            assert(false);
        }
    } else {
        if parse_err(damaged) is None {
            assert(damaged.take(30) =~= good.take(30));
            lemma_u16_le(crc16_of(body), 0, 0);
            if j == 30 {
                lemma_u16_le(u16_from_le(damaged[30], damaged[31]), damaged[30], damaged[31]);
                lemma_u16_le(u16_from_le(good[30], good[31]), good[30], good[31]);
            } else {
                lemma_u16_le(u16_from_le(damaged[30], damaged[31]), damaged[30], damaged[31]);
                lemma_u16_le(u16_from_le(good[30], good[31]), good[30], good[31]);
            }
            assert(false);
        }
    }
}


/// The field bytes of an encoded record, read back as the values
/// that were encoded.
pub proof fn lemma_card_bytes_fields(c: CardData)
    ensures
        card_bytes(c).len() == 32,
        parse_err(card_bytes(c)) is None,
        card_bytes(c).subrange(4, 8) == c.uid@,
        card_bytes(c)[16] == c.status.spec_u8(),
        u32_from_le(card_bytes(c)[12], card_bytes(c)[13], card_bytes(c)[14], card_bytes(c)[15])
            == c.balance_cents,
        u16_from_le(card_bytes(c)[18], card_bytes(c)[19]) == opt_u16_encode(c.entry_station_id),
        u16_from_le(card_bytes(c)[24], card_bytes(c)[25]) == opt_u16_encode(
            c.last_board_station_id,
        ),
        u16_from_le(card_bytes(c)[26], card_bytes(c)[27]) == opt_u16_encode(
            c.last_alight_station_id,
        ),
{
    broadcast use vstd::array::group_array_axioms;

    assert(card_bytes(c).subrange(4, 8) =~= c.uid@);
    assert(card_bytes(c).take(30) =~= card_body(c));
    lemma_u16_le(crc16_of(card_body(c)), 0, 0);
    assert(u16_from_le(card_bytes(c)[30], card_bytes(c)[31]) == crc16_of(card_bytes(c).take(30)));
    lemma_u32_le(c.balance_cents, 0, 0, 0, 0);
    lemma_u16_le(opt_u16_encode(c.entry_station_id), 0, 0);
    lemma_u16_le(opt_u16_encode(c.last_board_station_id), 0, 0);
    lemma_u16_le(opt_u16_encode(c.last_alight_station_id), 0, 0);
}

} // verus!
