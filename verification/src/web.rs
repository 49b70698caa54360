//! Operator-UI plumbing that is pure computation: the driver
//! actions, the query-string parser that produces them, and the
//! status panel snapshot the UI renders.

use vstd::prelude::*;

verus! {

use vstd::string::{StringExecFns, StringSliceAdditionalSpecFns};
use vstd::utf8::{valid_utf8, decode_utf8, encode_utf8};
use crate::card_data::spec_hex_val;
use crate::model::{Direction, PassengerTone};
use crate::strutil::{bytes_to_string_lossy, dec_digit, dec_str, str_eq, u64_to_string};

/// An operator command from the web UI.
pub enum DriverAction {
    SetRoute { route_id: u16 },
    SetDirection { direction: Direction },
    SetStation { station_id: u16 },
    NextStation,
    PrevStation,
    SyncConfig,
    UploadNow,
    SetBackend { base_url: String },
    StartRecharge { amount_cents: u32 },
    CancelRecharge,
    StartRegister,
    CancelRegister,
}

/// The snapshot the UI renders. Money is in cents.
pub struct StatusPanel {
    pub route_id: u16,
    pub route_name: String,
    pub station_id: u16,
    pub station_name: String,
    pub direction: Direction,
    pub tap_mode_label: String,
    pub fare_type_label: String,
    pub cache_count: usize,
    pub wifi_connected: bool,
    pub backend_reachable: bool,
    pub backend_base_url: String,
    pub passenger_tone: PassengerTone,
    pub passenger_message: String,
    pub standard_fare_cents: Option<u32>,
    pub last_fare_cents: Option<u32>,
    pub last_fare_label: String,
    pub recharge_active: bool,
    pub recharge_amount_cents: Option<u32>,
    pub register_active: bool,
}

/// The outcome reported for an action.
pub struct ActionResult {
    pub success: bool,
    pub message: String,
}

// ---------------------------------------------------------------
// Query parsing
// ---------------------------------------------------------------

/// Percent-decoding over bytes: `+` becomes a space, `%xy` with two
/// hex digits becomes one byte, anything else passes through.
pub open spec fn spec_percent_decode(s: Seq<u8>) -> Seq<u8>
    decreases s.len(),
{
    if s.len() == 0 {
        Seq::empty()
    } else if s[0] == 0x2B {
        seq![0x20u8] + spec_percent_decode(s.drop_first())
    } else if s[0] == 0x25 && s.len() > 2 && spec_hex_val(s[1]) is Some && spec_hex_val(s[2])
        is Some {
        seq![((spec_hex_val(s[1]).unwrap() * 16) + spec_hex_val(s[2]).unwrap()) as u8]
            + spec_percent_decode(s.skip(3))
    } else {
        seq![s[0]] + spec_percent_decode(s.drop_first())
    }
}

/// The hex digit value of one ASCII byte.
pub fn hex_value(byte: u8) -> (r: Option<u8>)
    ensures
        r == spec_hex_val(byte),
        r matches Some(v) ==> v < 16,
{
    if 0x30 <= byte && byte <= 0x39 {
        Some(byte - 0x30)
    } else if 0x61 <= byte && byte <= 0x66 {
        Some(byte - 0x61 + 10)
    } else if 0x41 <= byte && byte <= 0x46 {
        Some(byte - 0x41 + 10)
    } else {
        None
    }
}

/// Percent-decodes raw bytes into text.
#[verifier::loop_isolation(false)]
#[verifier::rlimit(50)]
fn decode_bytes(v: &[u8]) -> (r: String)
    ensures
        valid_utf8(spec_percent_decode(v@)) ==> r@ == decode_utf8(spec_percent_decode(v@)),
{
    let n = v.len();
    let mut out: Vec<u8> = Vec::new();
    let mut i: usize = 0;
    proof {
        assert(v@.skip(0) =~= v@);
    }
    while i < n
        invariant
            i <= n,
            n == v@.len(),
            spec_percent_decode(v@) == out@ + spec_percent_decode(v@.skip(i as int)),
        decreases n - i,
    {
        proof {
            assert(v@.skip(i as int)[0] == v@[i as int]);
            assert(v@.skip(i as int).drop_first() =~= v@.skip(i as int + 1));
            if i + 3 <= v@.len() {
                assert(v@.skip(i as int).skip(3) =~= v@.skip(i as int + 3));
            }
        }
        let b = v[i];
        if b == 0x2B {
            out.push(0x20);
            i = i + 1;
        } else if b == 0x25 && n - i > 2 {
            let hi = hex_value(v[i + 1]);
            let lo = hex_value(v[i + 2]);
            match (hi, lo) {
                (Some(h), Some(l)) => {
                    out.push(h * 16 + l);
                    i = i + 3;
                },
                _ => {
                    out.push(b);
                    i = i + 1;
                },
            }
        } else {
            out.push(b);
            i = i + 1;
        }
    }
    proof {
        assert(v@.skip(n as int) =~= Seq::<u8>::empty());
        assert(out@ + Seq::<u8>::empty() =~= out@);
    }
    bytes_to_string_lossy(out.as_slice())
}

/// Percent-decodes one query component (`+` and `%xy`).
pub fn decode_component(input: &str) -> (r: String)
    ensures
        valid_utf8(spec_percent_decode(input.spec_bytes())) ==> r@ == decode_utf8(
            spec_percent_decode(input.spec_bytes()),
        ),
{
    decode_bytes(input.as_bytes())
}

/// Index of the first occurrence of a byte, or the length.
pub open spec fn idx_of(s: Seq<u8>, b: u8) -> int
    decreases s.len(),
{
    if s.len() == 0 {
        0
    } else if s[0] == b {
        0
    } else {
        1 + idx_of(s.drop_first(), b)
    }
}

proof fn lemma_idx_of_at(s: Seq<u8>, b: u8, r: int)
    requires
        0 <= r <= s.len(),
        forall|k: int| 0 <= k < r ==> s[k] != b,
        r < s.len() ==> s[r] == b,
    ensures
        idx_of(s, b) == r,
    decreases s.len(),
{
    if s.len() > 0 && s[0] != b {
        assert(s.drop_first() =~= s.skip(1));
        lemma_idx_of_at(s.drop_first(), b, r - 1);
    }
}

proof fn lemma_idx_of_bounds(s: Seq<u8>, b: u8)
    ensures
        0 <= idx_of(s, b) <= s.len(),
    decreases s.len(),
{
    if s.len() > 0 && s[0] != b {
        lemma_idx_of_bounds(s.drop_first(), b);
    }
}

/// The raw (undecoded) value of the first `key=value` pair for this
/// key, splitting the query at `&` and each pair at its first `=`.
pub open spec fn spec_query_value(q: Seq<u8>, key: Seq<u8>) -> Option<Seq<u8>>
    decreases q.len(),
    via spec_query_value_decreases
{
    let amp = idx_of(q, 0x26);
    let part = q.take(amp);
    let eq = idx_of(part, 0x3D);
    let k = part.take(eq);
    let v = if eq < part.len() {
        part.skip(eq + 1)
    } else {
        Seq::empty()
    };
    if k == key {
        Some(v)
    } else if amp < q.len() {
        spec_query_value(q.skip(amp + 1), key)
    } else {
        None
    }
}

#[via_fn]
proof fn spec_query_value_decreases(q: Seq<u8>, key: Seq<u8>) {
    lemma_idx_of_bounds(q, 0x26);
}

/// Index of the first occurrence of `b` in `[from, to)`, or `to`.
fn find_byte(s: &[u8], from: usize, to: usize, b: u8) -> (r: usize)
    requires
        from <= to <= s@.len(),
    ensures
        from <= r <= to,
        forall|k: int| from <= k < r ==> s@[k] != b,
        r < to ==> s@[r as int] == b,
{
    let mut i = from;
    while i < to
        invariant
            from <= i <= to,
            to <= s@.len(),
            forall|k: int| from <= k < i ==> s@[k] != b,
        decreases to - i,
    {
        if s[i] == b {
            return i;
        }
        i = i + 1;
    }
    i
}

/// The key bytes sit exactly at `[from, from + key.len())`.
fn bytes_eq_range(s: &[u8], from: usize, key: &[u8]) -> (r: bool)
    requires
        from + key@.len() <= s@.len(),
    ensures
        r == (s@.subrange(from as int, from as int + key@.len() as int) =~= key@),
{
    let n = s.len();
    let klen = key.len();
    let mut i: usize = 0;
    while i < klen
        invariant
            i <= klen,
            klen == key@.len(),
            n == s@.len(),
            from + klen <= n,
            forall|k: int| 0 <= k < i ==> s@[from + k] == key@[k],
        decreases klen - i,
    {
        if s[from + i] != key[i] {
            proof {
                assert(s@.subrange(from as int, from as int + key@.len() as int)[i as int]
                    != key@[i as int]);
            }
            return false;
        }
        i = i + 1;
    }
    proof {
        assert(s@.subrange(from as int, from as int + key@.len() as int) =~= key@);
    }
    true
}

/// Finds and percent-decodes the value under a key in a query
/// string: exactly the first matching pair's value.
#[verifier::loop_isolation(false)]
#[verifier::rlimit(100)]
pub fn query_value(query: &str, key: &str) -> (r: Option<String>)
    ensures
        r is Some <==> spec_query_value(query.spec_bytes(), key.spec_bytes()) is Some,
        r matches Some(s) ==> (valid_utf8(
            spec_percent_decode(spec_query_value(query.spec_bytes(), key.spec_bytes()).unwrap()),
        ) ==> s@ == decode_utf8(
            spec_percent_decode(spec_query_value(query.spec_bytes(), key.spec_bytes()).unwrap()),
        )),
{
    let qb = query.as_bytes();
    let kb = key.as_bytes();
    let n = qb.len();
    let mut start: usize = 0;
    proof {
        assert(qb@.skip(0) =~= qb@);
    }
    loop
        invariant
            start <= n,
            n == qb@.len(),
            qb@ == query.spec_bytes(),
            kb@ == key.spec_bytes(),
            spec_query_value(query.spec_bytes(), key.spec_bytes()) == spec_query_value(
                qb@.skip(start as int),
                kb@,
            ),
        decreases n - start,
    {
        let amp = find_byte(qb, start, n, 0x26);
        let eq = find_byte(qb, start, amp, 0x3D);
        let ghost seg = qb@.skip(start as int);
        let ghost amp_rel = amp - start;
        let ghost eq_rel = eq - start;
        let ghost part = seg.take(amp_rel);
        proof {
            assert(forall|k: int| 0 <= k < seg.len() ==> seg[k] == qb@[start + k]);
            lemma_idx_of_at(seg, 0x26, amp_rel);
            assert(part =~= qb@.subrange(start as int, amp as int));
            lemma_idx_of_at(part, 0x3D, eq_rel);
        }
        let klen = eq - start;
        let mut matches_key = klen == kb.len();
        if matches_key {
            matches_key = bytes_eq_range(qb, start, kb);
            proof {
                assert(part.take(eq_rel) =~= qb@.subrange(start as int, eq as int));
                if matches_key {
                    assert(part.take(eq_rel) == kb@);
                } else {
                    assert(part.take(eq_rel) != kb@);
                }
            }
        } else {
            proof {
                assert(part.take(eq_rel).len() != kb@.len());
            }
        }
        if matches_key {
            let vstart = if eq < amp {
                eq + 1
            } else {
                amp
            };
            let mut vbytes: Vec<u8> = Vec::new();
            let mut j = vstart;
            while j < amp
                invariant
                    vstart <= j <= amp,
                    amp <= n,
                    n == qb@.len(),
                    vbytes@ == qb@.subrange(vstart as int, j as int),
                decreases amp - j,
            {
                vbytes.push(qb[j]);
                proof {
                    assert(vbytes@ =~= qb@.subrange(vstart as int, j as int + 1));
                }
                j = j + 1;
            }
            proof {
                if eq_rel < part.len() {
                    assert(part.skip(eq_rel + 1) =~= qb@.subrange(eq as int + 1, amp as int));
                    assert(vbytes@ == part.skip(eq_rel + 1));
                } else {
                    assert(vbytes@ =~= Seq::<u8>::empty());
                }
            }
            return Some(decode_bytes(vbytes.as_slice()));
        }
        if amp >= n {
            proof {
                assert(part =~= seg);
            }
            return None;
        }
        proof {
            assert(seg.skip(amp_rel + 1) =~= qb@.skip(amp as int + 1));
        }
        start = amp + 1;
    }
}

// ---------------------------------------------------------------
// Amounts and URLs
// ---------------------------------------------------------------

pub open spec fn is_digit(b: u8) -> bool {
    0x30 <= b <= 0x39
}

pub open spec fn all_digits(s: Seq<u8>) -> bool {
    forall|i: int| 0 <= i < s.len() ==> is_digit(#[trigger] s[i])
}

/// The value of a digit string, most significant first.
pub open spec fn digits_val(s: Seq<u8>) -> int
    decreases s.len(),
{
    if s.len() == 0 {
        0
    } else {
        digits_val(s.drop_last()) * 10 + (s.last() - 0x30)
    }
}

proof fn lemma_digits_val_nonneg(s: Seq<u8>)
    requires
        all_digits(s),
    ensures
        digits_val(s) >= 0,
    decreases s.len(),
{
    if s.len() > 0 {
        assert(all_digits(s.drop_last()));
        lemma_digits_val_nonneg(s.drop_last());
    }
}

/// A digit string is worth at least any of its prefixes.
proof fn lemma_digits_val_prefix_le(s: Seq<u8>, k: int)
    requires
        all_digits(s),
        0 <= k <= s.len(),
    ensures
        0 <= digits_val(s.take(k)) <= digits_val(s),
    decreases s.len() - k,
{
    assert(all_digits(s.take(k)));
    lemma_digits_val_nonneg(s.take(k));
    if k < s.len() {
        lemma_digits_val_prefix_le(s, k + 1);
        assert(s.take(k + 1).drop_last() =~= s.take(k));
        lemma_digits_val_nonneg(s.take(k + 1));
    } else {
        assert(s.take(k) =~= s);
    }
}

/// A plain decimal `u16`: all digits, at least one, value in range.
pub open spec fn spec_parse_u16(s: Seq<u8>) -> Option<u16> {
    if s.len() == 0 || !all_digits(s) || digits_val(s) > 0xFFFF {
        None
    } else {
        Some(digits_val(s) as u16)
    }
}

/// Parses a plain decimal as a `u16`; rejects anything else.
#[verifier::loop_isolation(false)]
#[verifier::rlimit(50)]
pub fn parse_u16(input: &str) -> (r: Option<u16>)
    ensures
        r == spec_parse_u16(input.spec_bytes()),
{
    let bytes = input.as_bytes();
    let n = bytes.len();
    if n == 0 {
        return None;
    }
    let mut acc: u32 = 0;
    let mut i: usize = 0;
    proof {
        assert(bytes@.take(0) =~= Seq::<u8>::empty());
    }
    while i < n
        invariant
            i <= n,
            n == bytes@.len(),
            all_digits(bytes@.take(i as int)),
            acc == digits_val(bytes@.take(i as int)),
            acc <= 0xFFFFu32,
        decreases n - i,
    {
        let b = bytes[i];
        proof {
            assert(bytes@.take(i as int + 1).drop_last() =~= bytes@.take(i as int));
            assert(bytes@.take(i as int + 1).last() == bytes@[i as int]);
        }
        if b < 0x30 || b > 0x39 {
            proof {
                assert(!is_digit(bytes@[i as int]));
            }
            return None;
        }
        let next = acc * 10 + ((b - 0x30) as u32);
        if next > 0xFFFF {
            proof {
                if all_digits(bytes@) {
                    lemma_digits_val_prefix_le(bytes@, i as int + 1);
                }
            }
            return None;
        }
        acc = next;
        i = i + 1;
    }
    proof {
        assert(bytes@.take(n as int) =~= bytes@);
    }
    Some(acc as u16)
}

pub open spec fn is_ws(b: u8) -> bool {
    b == 0x20 || b == 0x09 || b == 0x0A || b == 0x0D
}

/// How many whitespace bytes the text starts with.
pub open spec fn lead_ws(s: Seq<u8>) -> int
    decreases s.len(),
{
    if s.len() == 0 {
        0
    } else if is_ws(s[0]) {
        1 + lead_ws(s.drop_first())
    } else {
        0
    }
}

/// Where the trailing whitespace begins.
pub open spec fn rtrim_at(s: Seq<u8>) -> int
    decreases s.len(),
{
    if s.len() == 0 {
        0
    } else if is_ws(s.last()) {
        rtrim_at(s.drop_last())
    } else {
        s.len() as int
    }
}

/// The text without leading and trailing whitespace.
pub open spec fn spec_trimmed(s: Seq<u8>) -> Seq<u8> {
    if lead_ws(s) <= rtrim_at(s) {
        s.subrange(lead_ws(s), rtrim_at(s))
    } else {
        Seq::empty()
    }
}

proof fn lemma_lead_ws_at(s: Seq<u8>, r: int)
    requires
        0 <= r <= s.len(),
        forall|k: int| 0 <= k < r ==> is_ws(s[k]),
        r < s.len() ==> !is_ws(s[r]),
    ensures
        lead_ws(s) == r,
    decreases s.len(),
{
    if s.len() > 0 && is_ws(s[0]) {
        assert(s.drop_first() =~= s.skip(1));
        lemma_lead_ws_at(s.drop_first(), r - 1);
    }
}

proof fn lemma_rtrim_at(s: Seq<u8>, r: int)
    requires
        0 <= r <= s.len(),
        forall|k: int| r <= k < s.len() ==> is_ws(s[k]),
        r > 0 ==> !is_ws(s[r - 1]),
    ensures
        rtrim_at(s) == r,
    decreases s.len(),
{
    if s.len() > 0 && is_ws(s.last()) {
        lemma_rtrim_at(s.drop_last(), r);
    }
}

/// Cents parsed from a decimal yuan amount: the integer part times
/// one hundred plus the first two fraction digits, rounded half up
/// at the third; whitespace is trimmed; anything else, a zero
/// result, or an amount beyond the range gives nothing.
pub open spec fn spec_amount_cents(s: Seq<u8>) -> Option<u32> {
    let t = spec_trimmed(s);
    let dot = idx_of(t, 0x2E);
    let ip = t.take(dot);
    let fp = if dot < t.len() {
        t.skip(dot + 1)
    } else {
        Seq::empty()
    };
    if t.len() == 0 || !all_digits(ip) || !all_digits(fp) || ip.len() + fp.len() == 0 {
        None
    } else {
        let f0: int = if fp.len() >= 1 {
            fp[0] - 0x30
        } else {
            0
        };
        let f1: int = if fp.len() >= 2 {
            fp[1] - 0x30
        } else {
            0
        };
        let carry: int = if fp.len() >= 3 && fp[2] >= 0x35 {
            1
        } else {
            0
        };
        let cents = digits_val(ip) * 100 + f0 * 10 + f1 + carry;
        if cents <= 0 || cents > u32::MAX {
            None
        } else {
            Some(cents as u32)
        }
    }
}

/// Parses a decimal yuan amount into cents.
#[verifier::loop_isolation(false)]
#[verifier::rlimit(100)]
pub fn parse_amount_cents(input: &str) -> (r: Option<u32>)
    ensures
        r == spec_amount_cents(input.spec_bytes()),
        r matches Some(c) ==> c > 0,
{
    let bytes = input.as_bytes();
    let n = bytes.len();
    let mut lo: usize = 0;
    while lo < n && (bytes[lo] == 0x20 || bytes[lo] == 0x09 || bytes[lo] == 0x0A || bytes[lo]
        == 0x0D)
        invariant
            lo <= n,
            n == bytes@.len(),
            forall|k: int| 0 <= k < lo ==> is_ws(bytes@[k]),
        decreases n - lo,
    {
        lo = lo + 1;
    }
    proof {
        lemma_lead_ws_at(bytes@, lo as int);
    }
    let mut hi: usize = n;
    while hi > lo && (bytes[hi - 1] == 0x20 || bytes[hi - 1] == 0x09 || bytes[hi - 1] == 0x0A
        || bytes[hi - 1] == 0x0D)
        invariant
            lo <= hi <= n,
            n == bytes@.len(),
            forall|k: int| hi <= k < n ==> is_ws(bytes@[k]),
        decreases hi,
    {
        hi = hi - 1;
    }
    let ghost t = spec_trimmed(bytes@);
    if lo >= hi {
        proof {
            assert(lo == hi);
            if lo < n {
                assert(is_ws(bytes@[lo as int]));
            }
            lemma_rtrim_at(bytes@, 0);
            assert(t.len() == 0);
        }
        return None;
    }
    proof {
        lemma_rtrim_at(bytes@, hi as int);
        assert(t =~= bytes@.subrange(lo as int, hi as int));
    }
    let dot = find_byte(bytes, lo, hi, 0x2E);
    let ghost dot_rel = dot - lo;
    proof {
        assert(forall|k: int| 0 <= k < t.len() ==> t[k] == bytes@[lo + k]);
        lemma_idx_of_at(t, 0x2E, dot_rel);
        assert(t.take(dot_rel) =~= bytes@.subrange(lo as int, dot as int));
        if dot_rel < t.len() {
            assert(t.skip(dot_rel + 1) =~= bytes@.subrange(dot as int + 1, hi as int));
        }
    }
    let ghost ip = t.take(dot_rel);
    let ghost fp = if dot_rel < t.len() {
        t.skip(dot_rel + 1)
    } else {
        Seq::<u8>::empty()
    };
    let mut i = lo;
    let mut int_val: u64 = 0;
    let mut overflow = false;
    proof {
        assert(bytes@.subrange(lo as int, lo as int) =~= Seq::<u8>::empty());
    }
    while i < dot
        invariant
            lo <= i <= dot,
            dot <= hi <= n,
            n == bytes@.len(),
            ip == bytes@.subrange(lo as int, dot as int),
            all_digits(bytes@.subrange(lo as int, i as int)),
            !overflow ==> int_val == digits_val(bytes@.subrange(lo as int, i as int))
                && int_val <= u32::MAX,
            overflow ==> digits_val(bytes@.subrange(lo as int, i as int)) > u32::MAX,
            forall|k: int| 0 <= k < i - lo ==> bytes@.subrange(lo as int, i as int)[k] == ip[k],
        decreases dot - i,
    {
        let b = bytes[i];
        proof {
            assert(bytes@.subrange(lo as int, i as int + 1).drop_last() =~= bytes@.subrange(
                lo as int,
                i as int,
            ));
            assert(bytes@.subrange(lo as int, i as int + 1).last() == bytes@[i as int]);
        }
        if b < 0x30 || b > 0x39 {
            proof {
                assert(ip[i - lo] == bytes@[i as int]);
                assert(!is_digit(ip[i - lo]));
            }
            return None;
        }
        if overflow {
            proof {
                let prev = bytes@.subrange(lo as int, i as int);
                let cur = bytes@.subrange(lo as int, i as int + 1);
                assert(all_digits(prev));
                lemma_digits_val_nonneg(prev);
                assert(digits_val(cur) == digits_val(prev) * 10 + (bytes@[i as int] - 0x30));
                assert(digits_val(prev) * 10 >= digits_val(prev)) by (nonlinear_arith)
                    requires
                        digits_val(prev) >= 0,
                ;
            }
        } else {
            let d = (b - 0x30) as u64;
            let next = int_val * 10 + d;
            if next > u32::MAX as u64 {
                overflow = true;
            } else {
                int_val = next;
            }
        }
        i = i + 1;
    }
    proof {
        assert(bytes@.subrange(lo as int, dot as int) =~= ip);
        assert(all_digits(ip));
    }
    let mut f0: u64 = 0;
    let mut f1: u64 = 0;
    let mut round_up = false;
    if dot < hi {
        let mut j = dot + 1;
        let mut k: usize = 0;
        while j < hi
            invariant
                dot + 1 <= j <= hi,
                hi <= n,
                n == bytes@.len(),
                fp == bytes@.subrange(dot as int + 1, hi as int),
                k == vstd::math::min(j - dot - 1, 3),
                forall|m: int| 0 <= m < j - dot - 1 ==> is_digit(fp[m]),
                f0 < 10 && f1 < 10,
                fp.len() >= 1 && j - dot - 1 >= 1 ==> f0 == fp[0] - 0x30,
                fp.len() < 1 || j - dot - 1 < 1 ==> f0 == 0,
                fp.len() >= 2 && j - dot - 1 >= 2 ==> f1 == fp[1] - 0x30,
                fp.len() < 2 || j - dot - 1 < 2 ==> f1 == 0,
                round_up == (j - dot - 1 >= 3 && fp[2] >= 0x35),
            decreases hi - j,
        {
            let b = bytes[j];
            proof {
                assert(fp[j - dot - 1] == bytes@[j as int]);
            }
            if b < 0x30 || b > 0x39 {
                proof {
                    assert(!is_digit(fp[j - dot - 1]));
                }
                return None;
            }
            let pos = j - dot - 1;
            if pos == 0 {
                f0 = (b - 0x30) as u64;
            } else if pos == 1 {
                f1 = (b - 0x30) as u64;
            } else if pos == 2 && b >= 0x35 {
                round_up = true;
            }
            if k < 3 {
                k = k + 1;
            }
            j = j + 1;
        }
        proof {
            assert(all_digits(fp));
        }
    }
    proof {
        if !(dot < hi) {
            assert(fp =~= Seq::<u8>::empty());
        }
    }
    if dot == lo && hi <= dot + 1 {
        proof {
            assert(ip.len() == 0);
            assert(fp.len() == 0);
        }
        return None;
    }
    proof {
        assert(ip.len() + fp.len() > 0);
    }
    if overflow {
        proof {
            lemma_digits_val_nonneg(fp);
            assert(digits_val(ip) * 100 >= digits_val(ip)) by (nonlinear_arith)
                requires
                    digits_val(ip) > u32::MAX,
            ;
        }
        return None;
    }
    let cents: u64 = int_val * 100 + f0 * 10 + f1 + (if round_up {
        1u64
    } else {
        0u64
    });
    if cents == 0 || cents > u32::MAX as u64 {
        return None;
    }
    Some(cents as u32)
}

proof fn lemma_rtrim_nonws(s: Seq<u8>)
    requires
        rtrim_at(s) > 0,
    ensures
        !is_ws(s[rtrim_at(s) - 1]),
        rtrim_at(s) <= s.len(),
    decreases s.len(),
{
    if s.len() > 0 && is_ws(s.last()) {
        lemma_rtrim_nonws(s.drop_last());
    }
}

/// Trailing slashes removed.
pub open spec fn spec_strip_slashes(s: Seq<u8>) -> Seq<u8>
    decreases s.len(),
{
    if s.len() > 0 && s.last() == 0x2F {
        spec_strip_slashes(s.drop_last())
    } else {
        s
    }
}

proof fn lemma_strip_slashes_at(s: Seq<u8>, r: int)
    requires
        0 <= r <= s.len(),
        forall|k: int| r <= k < s.len() ==> s[k] == 0x2F,
        r > 0 ==> s[r - 1] != 0x2F,
    ensures
        spec_strip_slashes(s) == s.take(r),
    decreases s.len(),
{
    if s.len() > 0 && s.last() == 0x2F {
        lemma_strip_slashes_at(s.drop_last(), r);
        assert(s.drop_last().take(r) =~= s.take(r));
    } else {
        assert(s.take(s.len() as int) =~= s);
    }
}

pub open spec fn http_prefix() -> Seq<u8> {
    seq![0x68u8, 0x74, 0x74, 0x70, 0x3A, 0x2F, 0x2F]
}

pub open spec fn https_prefix() -> Seq<u8> {
    seq![0x68u8, 0x74, 0x74, 0x70, 0x73, 0x3A, 0x2F, 0x2F]
}

pub open spec fn has_byte_prefix(s: Seq<u8>, p: Seq<u8>) -> bool {
    p.len() <= s.len() && s.take(p.len() as int) == p
}

/// An operator-typed backend address, normalised: whitespace
/// trimmed, trailing slashes stripped, and `http://` prefixed when
/// no scheme is present; empty input clears the override.
pub open spec fn spec_normalized_url(s: Seq<u8>) -> Seq<u8> {
    let t = spec_strip_slashes(spec_trimmed(s));
    if t.len() == 0 {
        Seq::empty()
    } else if has_byte_prefix(t, http_prefix()) || has_byte_prefix(t, https_prefix()) {
        t
    } else {
        http_prefix() + t
    }
}

/// Normalises an operator-typed backend address.
#[verifier::loop_isolation(false)]
#[verifier::rlimit(100)]
pub fn normalize_backend_url(input: String) -> (r: String)
    ensures
        spec_normalized_url(encode_utf8(input@)).len() == 0 ==> r@ == Seq::<
            char,
        >::empty(),
        valid_utf8(spec_normalized_url(encode_utf8(input@))) ==> r@ == decode_utf8(
            spec_normalized_url(encode_utf8(input@)),
        ),
{
    let bytes = input.as_str().as_bytes();
    let n = bytes.len();
    let mut lo: usize = 0;
    while lo < n && (bytes[lo] == 0x20 || bytes[lo] == 0x09 || bytes[lo] == 0x0A || bytes[lo]
        == 0x0D)
        invariant
            lo <= n,
            n == bytes@.len(),
            forall|k: int| 0 <= k < lo ==> is_ws(bytes@[k]),
        decreases n - lo,
    {
        lo = lo + 1;
    }
    proof {
        lemma_lead_ws_at(bytes@, lo as int);
    }
    let mut hi: usize = n;
    while hi > lo && (bytes[hi - 1] == 0x20 || bytes[hi - 1] == 0x09 || bytes[hi - 1] == 0x0A
        || bytes[hi - 1] == 0x0D)
        invariant
            lo <= hi <= n,
            n == bytes@.len(),
            forall|k: int| hi <= k < n ==> is_ws(bytes@[k]),
        decreases hi,
    {
        hi = hi - 1;
    }
    let ghost t0 = spec_trimmed(bytes@);
    proof {
        if lo < hi {
            lemma_rtrim_at(bytes@, hi as int);
            assert(t0 =~= bytes@.subrange(lo as int, hi as int));
        }
    }
    let trim_hi = hi;
    while hi > lo && bytes[hi - 1] == 0x2F
        invariant
            lo <= hi <= trim_hi,
            trim_hi <= n,
            n == bytes@.len(),
            forall|k: int| hi <= k < trim_hi ==> bytes@[k] == 0x2F,
        decreases hi,
    {
        hi = hi - 1;
    }
    if lo >= hi {
        proof {
            if lo < trim_hi {
                assert(forall|k: int| 0 <= k < t0.len() ==> t0[k] == bytes@[lo + k]);
                lemma_strip_slashes_at(t0, 0);
                assert(spec_strip_slashes(t0).len() == 0);
            } else {
                if lead_ws(bytes@) <= rtrim_at(bytes@) && rtrim_at(bytes@) > lead_ws(bytes@) {
                    lemma_rtrim_nonws(bytes@);
                    assert(is_ws(bytes@[rtrim_at(bytes@) - 1]));
                }
                assert(t0.len() == 0);
            }
        }
        return String::new();
    }
    let ghost t = spec_strip_slashes(t0);
    proof {
        assert(forall|k: int| 0 <= k < t0.len() ==> t0[k] == bytes@[lo + k]);
        lemma_strip_slashes_at(t0, hi - lo);
        assert(t =~= bytes@.subrange(lo as int, hi as int));
    }
    let mut trimmed: Vec<u8> = Vec::new();
    let mut i = lo;
    while i < hi
        invariant
            lo <= i <= hi,
            hi <= n,
            n == bytes@.len(),
            trimmed@ == bytes@.subrange(lo as int, i as int),
        decreases hi - i,
    {
        trimmed.push(bytes[i]);
        proof {
            assert(trimmed@ =~= bytes@.subrange(lo as int, i as int + 1));
        }
        i = i + 1;
    }
    proof {
        assert(trimmed@ == t);
    }
    let mut scheme: Vec<u8> = Vec::new();
    scheme.push(0x68);
    scheme.push(0x74);
    scheme.push(0x74);
    scheme.push(0x70);
    scheme.push(0x3A);
    scheme.push(0x2F);
    scheme.push(0x2F);
    proof {
        assert(scheme@ =~= http_prefix());
    }
    let mut schemes: Vec<u8> = Vec::new();
    schemes.push(0x68);
    schemes.push(0x74);
    schemes.push(0x74);
    schemes.push(0x70);
    schemes.push(0x73);
    schemes.push(0x3A);
    schemes.push(0x2F);
    schemes.push(0x2F);
    proof {
        assert(schemes@ =~= https_prefix());
    }
    let has_http = trimmed.len() >= scheme.len() && bytes_eq_range(
        trimmed.as_slice(),
        0,
        scheme.as_slice(),
    );
    let has_https = trimmed.len() >= schemes.len() && bytes_eq_range(
        trimmed.as_slice(),
        0,
        schemes.as_slice(),
    );
    proof {
        if trimmed@.len() >= http_prefix().len() {
            assert(trimmed@.subrange(0, http_prefix().len() as int) =~= trimmed@.take(
                http_prefix().len() as int,
            ));
        }
        if trimmed@.len() >= https_prefix().len() {
            assert(trimmed@.subrange(0, https_prefix().len() as int) =~= trimmed@.take(
                https_prefix().len() as int,
            ));
        }
    }
    let mut out: Vec<u8> = Vec::new();
    if !(has_http || has_https) {
        let mut k: usize = 0;
        while k < scheme.len()
            invariant
                k <= scheme@.len(),
                out@ == scheme@.take(k as int),
            decreases scheme@.len() - k,
        {
            out.push(scheme[k]);
            proof {
                assert(out@ =~= scheme@.take(k as int + 1));
            }
            k = k + 1;
        }
        proof {
            assert(out@ =~= http_prefix());
        }
    }
    let ghost base = out@;
    let mut k: usize = 0;
    while k < trimmed.len()
        invariant
            k <= trimmed@.len(),
            out@ == base + trimmed@.take(k as int),
        decreases trimmed@.len() - k,
    {
        out.push(trimmed[k]);
        proof {
            assert(out@ =~= base + trimmed@.take(k as int + 1));
        }
        k = k + 1;
    }
    proof {
        assert(out@ =~= spec_normalized_url(encode_utf8(input@)));
    }
    bytes_to_string_lossy(out.as_slice())
}


/// Renders an optional amount of cents as a currency string, two
/// decimals, or an em dash for none.
pub fn format_cents(amount_cents: Option<u32>) -> (r: String)
    ensures
        amount_cents is None ==> r@ == "—"@,
        amount_cents matches Some(a) ==> r@ == "¥"@ + dec_str((a / 100) as nat) + "."@ + seq![
            dec_digit(((a / 10) % 10) as nat),
            dec_digit((a % 10) as nat),
        ],
{
    match amount_cents {
        None => "—".to_owned(),
        Some(a) => {
            let mut out = "¥".to_owned();
            let units = u64_to_string((a / 100) as u64);
            out.append(units.as_str());
            out.append(".");
            out.append(digit_str((a / 10) % 10));
            out.append(digit_str(a % 10));
            out
        },
    }
}

fn digit_str(d: u32) -> (r: &'static str)
    requires
        d < 10,
    ensures
        r@ =~= seq![dec_digit(d as nat)],
{
    proof {
        reveal_strlit("0");
        reveal_strlit("1");
        reveal_strlit("2");
        reveal_strlit("3");
        reveal_strlit("4");
        reveal_strlit("5");
        reveal_strlit("6");
        reveal_strlit("7");
        reveal_strlit("8");
        reveal_strlit("9");
    }
    match d {
        0 => "0",
        1 => "1",
        2 => "2",
        3 => "3",
        4 => "4",
        5 => "5",
        6 => "6",
        7 => "7",
        8 => "8",
        _ => "9",
    }
}

// ---------------------------------------------------------------
// Driver actions
// ---------------------------------------------------------------

pub open spec fn key_type() -> Seq<u8> {
    seq![0x74u8, 0x79, 0x70, 0x65]
}

pub open spec fn key_route_id() -> Seq<u8> {
    seq![0x72u8, 0x6F, 0x75, 0x74, 0x65, 0x5F, 0x69, 0x64]
}

pub open spec fn key_station_id() -> Seq<u8> {
    seq![0x73u8, 0x74, 0x61, 0x74, 0x69, 0x6F, 0x6E, 0x5F, 0x69, 0x64]
}

pub open spec fn key_backend() -> Seq<u8> {
    seq![0x62u8, 0x61, 0x63, 0x6B, 0x65, 0x6E, 0x64]
}

pub open spec fn key_amount() -> Seq<u8> {
    seq![0x61u8, 0x6D, 0x6F, 0x75, 0x6E, 0x74]
}

/// The percent-decoded bytes of a query parameter.
pub open spec fn qv_bytes(q: Seq<char>, key: Seq<u8>) -> Option<Seq<u8>> {
    match spec_query_value(encode_utf8(q), key) {
        Some(v) => Some(spec_percent_decode(v)),
        None => None,
    }
}

/// Reads a query string into the driver action it names: the
/// `type` parameter picks the action, `route_id`/`station_id` must
/// be decimal ids, `amount` a positive yuan amount, `backend` a
/// non-empty address.
#[verifier::rlimit(100)]
pub fn parse_action(query: &str) -> (r: Option<DriverAction>)
    ensures
        qv_bytes(query@, key_type()) is None ==> r is None,
        qv_bytes(query@, key_type()) matches Some(tb) ==> (valid_utf8(tb) ==> ({
            let ts = decode_utf8(tb);
            &&& (ts == "next"@ ==> (r matches Some(a) && a is NextStation))
            &&& (ts == "prev"@ ==> (r matches Some(a) && a is PrevStation))
            &&& (ts == "dir_up"@ ==> r == Some(
                DriverAction::SetDirection { direction: Direction::Up },
            ))
            &&& (ts == "dir_down"@ ==> r == Some(
                DriverAction::SetDirection { direction: Direction::Down },
            ))
            &&& (ts == "sync"@ ==> (r matches Some(a) && a is SyncConfig))
            &&& (ts == "upload"@ ==> (r matches Some(a) && a is UploadNow))
            &&& (ts == "recharge_off"@ ==> (r matches Some(a) && a is CancelRecharge))
            &&& (ts == "register_on"@ ==> (r matches Some(a) && a is StartRegister))
            &&& (ts == "register_off"@ ==> (r matches Some(a) && a is CancelRegister))
            &&& (ts == "set_route"@ ==> {
                &&& (qv_bytes(query@, key_route_id()) is None ==> r is None)
                &&& (qv_bytes(query@, key_route_id()) matches Some(rv) ==> (valid_utf8(rv) ==> {
                    &&& (spec_parse_u16(rv) matches Some(v) ==> r == Some(
                        DriverAction::SetRoute { route_id: v },
                    ))
                    &&& (spec_parse_u16(rv) is None ==> r is None)
                }))
            })
            &&& (ts == "set_station"@ ==> {
                &&& (qv_bytes(query@, key_station_id()) is None ==> r is None)
                &&& (qv_bytes(query@, key_station_id()) matches Some(sv) ==> (valid_utf8(sv)
                    ==> {
                    &&& (spec_parse_u16(sv) matches Some(v) ==> r == Some(
                        DriverAction::SetStation { station_id: v },
                    ))
                    &&& (spec_parse_u16(sv) is None ==> r is None)
                }))
            })
            &&& (ts == "recharge"@ ==> {
                &&& (qv_bytes(query@, key_amount()) is None ==> r is None)
                &&& (qv_bytes(query@, key_amount()) matches Some(av) ==> (valid_utf8(av) ==> {
                    &&& (spec_amount_cents(av) matches Some(c) ==> r == Some(
                        DriverAction::StartRecharge { amount_cents: c },
                    ))
                    &&& (spec_amount_cents(av) is None ==> r is None)
                }))
            })
            &&& (ts == "set_backend"@ ==> {
                &&& (qv_bytes(query@, key_backend()) is None ==> r is None)
                &&& (qv_bytes(query@, key_backend()) matches Some(bv) ==> (valid_utf8(bv) ==> {
                    &&& (decode_utf8(bv).len() == 0 ==> r is None)
                    &&& (decode_utf8(bv).len() > 0 ==> (r matches Some(a) && a matches
                    DriverAction::SetBackend { base_url } && base_url@ == decode_utf8(bv)))
                }))
            })
            &&& (!(ts == "next"@ || ts == "prev"@ || ts == "dir_up"@ || ts == "dir_down"@ || ts
                == "sync"@ || ts == "upload"@ || ts == "recharge_off"@ || ts == "register_on"@
                || ts == "register_off"@ || ts == "set_route"@ || ts == "set_station"@ || ts
                == "recharge"@ || ts == "set_backend"@) ==> r is None)
        })),
        r matches Some(a) ==> (a matches DriverAction::StartRecharge { amount_cents } ==>
            amount_cents > 0),
{
    proof {
        broadcast use vstd::utf8::decode_utf8_encode_utf8;

        lemma_key_literals();
        reveal_strlit("next");
        reveal_strlit("prev");
        reveal_strlit("dir_up");
        reveal_strlit("dir_down");
        reveal_strlit("sync");
        reveal_strlit("upload");
        reveal_strlit("set_route");
        reveal_strlit("set_station");
        reveal_strlit("set_backend");
        reveal_strlit("recharge");
        reveal_strlit("recharge_off");
        reveal_strlit("register_on");
        reveal_strlit("register_off");
    }
    let action_type = match query_value(query, "type") {
        Some(t) => t,
        None => {
            return None;
        },
    };
    proof {
        assert("next"@.len() == 4 && "prev"@.len() == 4 && "dir_up"@.len() == 6 && "dir_down"@.len() == 8 && "sync"@.len() == 4 && "upload"@.len() == 6 && "set_route"@.len() == 9 && "set_station"@.len() == 11 && "set_backend"@.len() == 11 && "recharge"@.len() == 8 && "recharge_off"@.len() == 12 && "register_on"@.len() == 11 && "register_off"@.len() == 12);
        assert("next"@[0] == 'n' && "prev"@[0] == 'p' && "dir_up"@[0] == 'd' && "dir_down"@[0] == 'd' && "sync"@[0] == 's' && "upload"@[0] == 'u' && "set_route"@[0] == 's' && "set_station"@[0] == 's' && "set_backend"@[0] == 's' && "recharge"@[0] == 'r' && "recharge_off"@[0] == 'r' && "register_on"@[0] == 'r' && "register_off"@[0] == 'r');
        assert("set_station"@[4] == 's' && "set_backend"@[4] == 'b' && "register_on"@[4] == 's' && "register_off"@[4] == 's' && "recharge_off"@[4] == 'a' && "register_off"@[3] == 'i' && "recharge_off"@[3] == 'h' && "dir_up"@[4] == 'u' && "dir_down"@[4] == 'd');
        assert("next"@ != "prev"@ && "next"@ != "dir_up"@ && "next"@ != "dir_down"@ && "next"@ != "sync"@ && "next"@ != "upload"@ && "next"@ != "set_route"@ && "next"@ != "set_station"@ && "next"@ != "set_backend"@);
        assert("next"@ != "recharge"@ && "next"@ != "recharge_off"@ && "next"@ != "register_on"@ && "next"@ != "register_off"@ && "prev"@ != "dir_up"@ && "prev"@ != "dir_down"@ && "prev"@ != "sync"@ && "prev"@ != "upload"@);
        assert("prev"@ != "set_route"@ && "prev"@ != "set_station"@ && "prev"@ != "set_backend"@ && "prev"@ != "recharge"@ && "prev"@ != "recharge_off"@ && "prev"@ != "register_on"@ && "prev"@ != "register_off"@ && "dir_up"@ != "dir_down"@);
        assert("dir_up"@ != "sync"@ && "dir_up"@ != "upload"@ && "dir_up"@ != "set_route"@ && "dir_up"@ != "set_station"@ && "dir_up"@ != "set_backend"@ && "dir_up"@ != "recharge"@ && "dir_up"@ != "recharge_off"@ && "dir_up"@ != "register_on"@);
        assert("dir_up"@ != "register_off"@ && "dir_down"@ != "sync"@ && "dir_down"@ != "upload"@ && "dir_down"@ != "set_route"@ && "dir_down"@ != "set_station"@ && "dir_down"@ != "set_backend"@ && "dir_down"@ != "recharge"@ && "dir_down"@ != "recharge_off"@);
        assert("dir_down"@ != "register_on"@ && "dir_down"@ != "register_off"@ && "sync"@ != "upload"@ && "sync"@ != "set_route"@ && "sync"@ != "set_station"@ && "sync"@ != "set_backend"@ && "sync"@ != "recharge"@ && "sync"@ != "recharge_off"@);
        assert("sync"@ != "register_on"@ && "sync"@ != "register_off"@ && "upload"@ != "set_route"@ && "upload"@ != "set_station"@ && "upload"@ != "set_backend"@ && "upload"@ != "recharge"@ && "upload"@ != "recharge_off"@ && "upload"@ != "register_on"@);
        assert("upload"@ != "register_off"@ && "set_route"@ != "set_station"@ && "set_route"@ != "set_backend"@ && "set_route"@ != "recharge"@ && "set_route"@ != "recharge_off"@ && "set_route"@ != "register_on"@ && "set_route"@ != "register_off"@ && "set_station"@ != "set_backend"@);
        assert("set_station"@ != "recharge"@ && "set_station"@ != "recharge_off"@ && "set_station"@ != "register_on"@ && "set_station"@ != "register_off"@ && "set_backend"@ != "recharge"@ && "set_backend"@ != "recharge_off"@ && "set_backend"@ != "register_on"@ && "set_backend"@ != "register_off"@);
        assert("recharge"@ != "recharge_off"@ && "recharge"@ != "register_on"@ && "recharge"@ != "register_off"@ && "recharge_off"@ != "register_on"@ && "recharge_off"@ != "register_off"@ && "register_on"@ != "register_off"@);
    }
    if str_eq(action_type.as_str(), "next") {
        Some(DriverAction::NextStation)
    } else if str_eq(action_type.as_str(), "prev") {
        Some(DriverAction::PrevStation)
    } else if str_eq(action_type.as_str(), "dir_up") {
        Some(DriverAction::SetDirection { direction: Direction::Up })
    } else if str_eq(action_type.as_str(), "dir_down") {
        Some(DriverAction::SetDirection { direction: Direction::Down })
    } else if str_eq(action_type.as_str(), "sync") {
        Some(DriverAction::SyncConfig)
    } else if str_eq(action_type.as_str(), "upload") {
        Some(DriverAction::UploadNow)
    } else if str_eq(action_type.as_str(), "set_route") {
        let raw = match query_value(query, "route_id") {
            Some(v) => v,
            None => {
                return None;
            },
        };
        match parse_u16(raw.as_str()) {
            Some(route_id) => Some(DriverAction::SetRoute { route_id }),
            None => None,
        }
    } else if str_eq(action_type.as_str(), "set_station") {
        let raw = match query_value(query, "station_id") {
            Some(v) => v,
            None => {
                return None;
            },
        };
        match parse_u16(raw.as_str()) {
            Some(station_id) => Some(DriverAction::SetStation { station_id }),
            None => None,
        }
    } else if str_eq(action_type.as_str(), "set_backend") {
        let base_url = match query_value(query, "backend") {
            Some(v) => v,
            None => {
                return None;
            },
        };
        if base_url.as_str().is_empty() {
            None
        } else {
            Some(DriverAction::SetBackend { base_url })
        }
    } else if str_eq(action_type.as_str(), "recharge") {
        let raw = match query_value(query, "amount") {
            Some(v) => v,
            None => {
                return None;
            },
        };
        match parse_amount_cents(raw.as_str()) {
            Some(amount_cents) => Some(DriverAction::StartRecharge { amount_cents }),
            None => None,
        }
    } else if str_eq(action_type.as_str(), "recharge_off") {
        Some(DriverAction::CancelRecharge)
    } else if str_eq(action_type.as_str(), "register_on") {
        Some(DriverAction::StartRegister)
    } else if str_eq(action_type.as_str(), "register_off") {
        Some(DriverAction::CancelRegister)
    } else {
        None
    }
}

/// The key literals spell exactly the byte sequences the query
/// spec names.
proof fn lemma_key_literals()
    ensures
        "type".spec_bytes() == key_type(),
        "route_id".spec_bytes() == key_route_id(),
        "station_id".spec_bytes() == key_station_id(),
        "backend".spec_bytes() == key_backend(),
        "amount".spec_bytes() == key_amount(),
{
    reveal_strlit("type");
    reveal_strlit("route_id");
    reveal_strlit("station_id");
    reveal_strlit("backend");
    reveal_strlit("amount");
    vstd::string::is_ascii_spec_bytes("type");
    vstd::string::is_ascii_spec_bytes("route_id");
    vstd::string::is_ascii_spec_bytes("station_id");
    vstd::string::is_ascii_spec_bytes("backend");
    vstd::string::is_ascii_spec_bytes("amount");
    assert("type".spec_bytes() =~= key_type());
    assert("route_id".spec_bytes() =~= key_route_id());
    assert("station_id".spec_bytes() =~= key_station_id());
    assert("backend".spec_bytes() =~= key_backend());
    assert("amount".spec_bytes() =~= key_amount());
}

} // verus!
