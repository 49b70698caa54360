//! Fare rules: the standard fare (smallest positive base price) and
//! the per-trip estimate from the station sequence numbers and the
//! route's default rule. All prices are cents, so nothing here can
//! go negative and every rounding step is explicit.

use vstd::prelude::*;

verus! {

use vstd::math::min;
use crate::model::{FareRule, FareType, RouteConfig, StationConfig};

/// The smallest positive base price among the rules; `None` when no
/// rule has one. A zero base price means "unpriced" and is ignored.
pub open spec fn spec_standard_fare(fares: Seq<FareRule>) -> Option<u32>
    decreases fares.len(),
{
    if fares.len() == 0 {
        None
    } else {
        let rest = spec_standard_fare(fares.drop_first());
        let b = fares[0].base_price_cents;
        if b > 0 {
            match rest {
                None => Some(b),
                Some(m) => if b < m {
                    Some(b)
                } else {
                    Some(m)
                },
            }
        } else {
            rest
        }
    }
}

/// The first rule naming exactly this ordered station pair.
pub open spec fn spec_pair_rule(fares: Seq<FareRule>, s: u16, e: u16) -> Option<FareRule>
    decreases fares.len(),
{
    if fares.len() == 0 {
        None
    } else if fares[0].start_station == Some(s) && fares[0].end_station == Some(e) {
        Some(fares[0])
    } else {
        spec_pair_rule(fares.drop_first(), s, e)
    }
}

/// Whether a rule is the route's default: it names no start and no
/// end station (absent counts as zero).
pub open spec fn is_default_rule(r: FareRule) -> bool {
    &&& (r.start_station is None || r.start_station == Some(0u16))
    &&& (r.end_station is None || r.end_station == Some(0u16))
}

/// The first default rule.
pub open spec fn spec_default_rule(fares: Seq<FareRule>) -> Option<FareRule>
    decreases fares.len(),
{
    if fares.len() == 0 {
        None
    } else if is_default_rule(fares[0]) {
        Some(fares[0])
    } else {
        spec_default_rule(fares.drop_first())
    }
}

/// The sequence number of the first station with this id.
pub open spec fn spec_station_seq(stations: Seq<StationConfig>, id: u16) -> Option<u16>
    decreases stations.len(),
{
    if stations.len() == 0 {
        None
    } else if stations[0].id == id {
        Some(stations[0].sequence)
    } else {
        spec_station_seq(stations.drop_first(), id)
    }
}

/// The fare for extra segments on top of a default rule, saturating
/// at the largest representable price.
pub open spec fn spec_segment_price(base: u32, extra: u32, diff: u16, included: u16) -> u32 {
    if diff <= included || extra == 0 {
        base
    } else {
        let total = base + extra * (diff - included);
        if total > u32::MAX {
            u32::MAX
        } else {
            total as u32
        }
    }
}

/// The estimated fare between two stations, following the route's
/// rules: a pair rule with a positive price wins; otherwise the
/// uniform fare, or the default rule scaled by the sequence
/// distance.
pub open spec fn spec_estimate_fare(cfg: RouteConfig, s: u16, e: u16) -> Option<u32> {
    if s == 0 || e == 0 {
        spec_standard_fare(cfg.fares@)
    } else if spec_pair_rule(cfg.fares@, s, e) matches Some(r) && r.base_price_cents > 0 {
        Some(spec_pair_rule(cfg.fares@, s, e).unwrap().base_price_cents)
    } else if cfg.fare_type is Uniform {
        spec_standard_fare(cfg.fares@)
    } else {
        match (spec_station_seq(cfg.stations@, s), spec_station_seq(cfg.stations@, e)) {
            (Some(ds), Some(de)) => {
                let diff = if ds >= de {
                    (ds - de) as u16
                } else {
                    (de - ds) as u16
                };
                match spec_default_rule(cfg.fares@) {
                    Some(rule) => if rule.base_price_cents == 0 {
                        spec_standard_fare(cfg.fares@)
                    } else {
                        Some(
                            spec_segment_price(
                                rule.base_price_cents,
                                match rule.extra_price_cents {
                                    Some(x) => x,
                                    None => 0u32,
                                },
                                diff,
                                match rule.segment_count {
                                    Some(c) => c,
                                    None => 1u16,
                                },
                            ),
                        )
                    },
                    None => spec_standard_fare(cfg.fares@),
                }
            },
            _ => None,
        }
    }
}

impl RouteConfig {
    /// The route's standard fare: the smallest positive base price
    /// across its rules.
    #[verifier::loop_isolation(false)]
    pub fn standard_fare(&self) -> (r: Option<u32>)
        ensures
            r == spec_standard_fare(self.fares@),
    {
        let n = self.fares.len();
        let mut best: Option<u32> = None;
        let mut i: usize = n;
        proof {
            assert(self.fares@.skip(n as int) =~= Seq::<FareRule>::empty());
        }
        while i > 0
            invariant
                i <= n,
                best == spec_standard_fare(self.fares@.skip(i as int)),
            decreases i,
        {
            i = i - 1;
            let b = self.fares[i].base_price_cents;
            proof {
                assert(self.fares@.skip(i as int)[0] == self.fares@[i as int]);
                assert(self.fares@.skip(i as int).drop_first() =~= self.fares@.skip(i as int + 1));
            }
            if b > 0 {
                best = match best {
                    None => Some(b),
                    Some(m) => if b < m {
                        Some(b)
                    } else {
                        Some(m)
                    },
                };
            }
        }
        proof {
            assert(self.fares@.skip(0) =~= self.fares@);
        }
        best
    }

    /// The estimated fare from boarding to alighting station.
    #[verifier::loop_isolation(false)]
    #[verifier::rlimit(50)]
    pub fn estimate_trip_fare(&self, start_station_id: u16, end_station_id: u16) -> (r: Option<
        u32,
    >)
        ensures
            r == spec_estimate_fare(*self, start_station_id, end_station_id),
    {
        if start_station_id == 0 || end_station_id == 0 {
            return self.standard_fare();
        }
        if let Some(idx) = self.find_pair_rule(start_station_id, end_station_id) {
            let base = self.fares[idx].base_price_cents;
            if base > 0 {
                return Some(base);
            }
        }
        match self.fare_type {
            FareType::Uniform => self.standard_fare(),
            FareType::Segment | FareType::Distance => {
                let ds = match self.find_station_seq(start_station_id) {
                    Some(v) => v,
                    None => {
                        return None;
                    },
                };
                let de = match self.find_station_seq(end_station_id) {
                    Some(v) => v,
                    None => {
                        return None;
                    },
                };
                let diff: u16 = if ds >= de {
                    ds - de
                } else {
                    de - ds
                };
                let rule_idx = match self.find_default_rule() {
                    Some(v) => v,
                    None => {
                        return self.standard_fare();
                    },
                };
                let base = self.fares[rule_idx].base_price_cents;
                if base == 0 {
                    return self.standard_fare();
                }
                let extra: u32 = match self.fares[rule_idx].extra_price_cents {
                    Some(x) => x,
                    None => 0,
                };
                let included: u16 = match self.fares[rule_idx].segment_count {
                    Some(c) => c,
                    None => 1,
                };
                if diff <= included || extra == 0 {
                    return Some(base);
                }
                let d: u16 = diff - included;
                proof {
                    assert((extra as u64) * (d as u64) <= 0xFFFF_FFFFu64 * 0xFFFFu64)
                        by (nonlinear_arith)
                        requires
                            extra as u64 <= 0xFFFF_FFFFu64,
                            d as u64 <= 0xFFFFu64,
                    ;
                }
                let total: u64 = (base as u64) + (extra as u64) * (d as u64);
                if total > u32::MAX as u64 {
                    Some(u32::MAX)
                } else {
                    Some(total as u32)
                }
            },
        }
    }

    /// Index of the first rule naming this exact station pair.
    #[verifier::loop_isolation(false)]
    fn find_pair_rule(&self, s: u16, e: u16) -> (r: Option<usize>)
        ensures
            r matches Some(i) ==> i < self.fares@.len() && spec_pair_rule(self.fares@, s, e)
                == Some(self.fares@[i as int]),
            r is None ==> spec_pair_rule(self.fares@, s, e) is None,
    {
        let mut i: usize = 0;
        proof {
            assert(self.fares@.skip(0) =~= self.fares@);
        }
        while i < self.fares.len()
            invariant
                i <= self.fares@.len(),
                spec_pair_rule(self.fares@, s, e) == spec_pair_rule(
                    self.fares@.skip(i as int),
                    s,
                    e,
                ),
            decreases self.fares@.len() - i,
        {
            proof {
                assert(self.fares@.skip(i as int)[0] == self.fares@[i as int]);
                assert(self.fares@.skip(i as int).drop_first() =~= self.fares@.skip(i as int + 1));
            }
            let is_start = match self.fares[i].start_station {
                Some(v) => v == s,
                None => false,
            };
            let is_end = match self.fares[i].end_station {
                Some(v) => v == e,
                None => false,
            };
            if is_start && is_end {
                return Some(i);
            }
            i = i + 1;
        }
        proof {
            assert(self.fares@.skip(self.fares@.len() as int) =~= Seq::<FareRule>::empty());
        }
        None
    }

    /// Index of the first default rule.
    #[verifier::loop_isolation(false)]
    fn find_default_rule(&self) -> (r: Option<usize>)
        ensures
            r matches Some(i) ==> i < self.fares@.len() && spec_default_rule(self.fares@) == Some(
                self.fares@[i as int],
            ),
            r is None ==> spec_default_rule(self.fares@) is None,
    {
        let mut i: usize = 0;
        proof {
            assert(self.fares@.skip(0) =~= self.fares@);
        }
        while i < self.fares.len()
            invariant
                i <= self.fares@.len(),
                spec_default_rule(self.fares@) == spec_default_rule(self.fares@.skip(i as int)),
            decreases self.fares@.len() - i,
        {
            proof {
                assert(self.fares@.skip(i as int)[0] == self.fares@[i as int]);
                assert(self.fares@.skip(i as int).drop_first() =~= self.fares@.skip(i as int + 1));
            }
            let start_clear = match self.fares[i].start_station {
                Some(v) => v == 0,
                None => true,
            };
            let end_clear = match self.fares[i].end_station {
                Some(v) => v == 0,
                None => true,
            };
            if start_clear && end_clear {
                return Some(i);
            }
            i = i + 1;
        }
        proof {
            assert(self.fares@.skip(self.fares@.len() as int) =~= Seq::<FareRule>::empty());
        }
        None
    }

    /// The sequence number of the station with this id.
    #[verifier::loop_isolation(false)]
    fn find_station_seq(&self, id: u16) -> (r: Option<u16>)
        ensures
            r == spec_station_seq(self.stations@, id),
    {
        let mut i: usize = 0;
        proof {
            assert(self.stations@.skip(0) =~= self.stations@);
        }
        while i < self.stations.len()
            invariant
                i <= self.stations@.len(),
                spec_station_seq(self.stations@, id) == spec_station_seq(
                    self.stations@.skip(i as int),
                    id,
                ),
            decreases self.stations@.len() - i,
        {
            proof {
                assert(self.stations@.skip(i as int)[0] == self.stations@[i as int]);
                assert(self.stations@.skip(i as int).drop_first() =~= self.stations@.skip(
                    i as int + 1,
                ));
            }
            if self.stations[i].id == id {
                return Some(self.stations[i].sequence);
            }
            i = i + 1;
        }
        proof {
            assert(self.stations@.skip(self.stations@.len() as int) =~= Seq::<
                StationConfig,
            >::empty());
        }
        None
    }
}

/// The standard fare ignores zero base prices and picks the smallest
/// positive one: it is positive, it is one of the rules' prices, and
/// no rule offers a smaller positive price. It is `None` exactly
/// when no rule prices the route.
pub proof fn lemma_standard_fare_minimal(fares: Seq<FareRule>)
    ensures
        spec_standard_fare(fares) is None <==> forall|i: int|
            0 <= i < fares.len() ==> #[trigger] fares[i].base_price_cents == 0,
        spec_standard_fare(fares) matches Some(m) ==> m > 0 && (exists|i: int|
            0 <= i < fares.len() && #[trigger] fares[i].base_price_cents == m) && forall|i: int|
            0 <= i < fares.len() && #[trigger] fares[i].base_price_cents > 0 ==> m
                <= fares[i].base_price_cents,
    decreases fares.len(),
{
    if fares.len() > 0 {
        lemma_standard_fare_minimal(fares.drop_first());
        let rest = fares.drop_first();
        assert forall|i: int| 0 <= i < fares.len() implies (fares[i].base_price_cents == rest[
        i - 1].base_price_cents || i == 0) by {
            if i > 0 {
                assert(rest[i - 1] == fares[i]);
            }
        }
        if spec_standard_fare(fares) is Some {
            let m = spec_standard_fare(fares).unwrap();
            assert forall|i: int|
                0 <= i < fares.len() && #[trigger] fares[i].base_price_cents > 0 implies m
                <= fares[i].base_price_cents by {
                if i > 0 {
                    assert(rest[i - 1] == fares[i]);
                }
            }
            if fares[0].base_price_cents == m {
            } else {
                let w = choose|w: int|
                    0 <= w < rest.len() && #[trigger] rest[w].base_price_cents == m;
                assert(fares[w + 1].base_price_cents == m);
            }
        }
    }
}

/// A trip whose sequence distance stays within the default rule's
/// included segments, or whose rule has no extra price, costs
/// exactly the base price. (Prices are unsigned, so no estimate is
/// ever negative.)
pub proof fn lemma_estimate_base_within_included(cfg: RouteConfig, s: u16, e: u16)
    requires
        s != 0,
        e != 0,
        !(spec_pair_rule(cfg.fares@, s, e) matches Some(r) && r.base_price_cents > 0),
        cfg.fare_type is Segment || cfg.fare_type is Distance,
        spec_station_seq(cfg.stations@, s) is Some,
        spec_station_seq(cfg.stations@, e) is Some,
        spec_default_rule(cfg.fares@) matches Some(rule) && rule.base_price_cents > 0,
        ({
            let ds = spec_station_seq(cfg.stations@, s).unwrap();
            let de = spec_station_seq(cfg.stations@, e).unwrap();
            let diff = if ds >= de {
                (ds - de) as u16
            } else {
                (de - ds) as u16
            };
            diff <= (match spec_default_rule(cfg.fares@).unwrap().segment_count {
                Some(c) => c,
                None => 1u16,
            }) || (match spec_default_rule(cfg.fares@).unwrap().extra_price_cents {
                Some(x) => x,
                None => 0u32,
            }) == 0
        }),
    ensures
        spec_estimate_fare(cfg, s, e) == Some(
            spec_default_rule(cfg.fares@).unwrap().base_price_cents,
        ),
{
}


/// The first station with this id, if any.
pub open spec fn spec_find_station(stations: Seq<StationConfig>, id: u16) -> Option<StationConfig>
    decreases stations.len(),
{
    if stations.len() == 0 {
        None
    } else if stations[0].id == id {
        Some(stations[0])
    } else {
        spec_find_station(stations.drop_first(), id)
    }
}

/// The find answers with the station at the first index holding the
/// id.
pub proof fn lemma_find_station_first(stations: Seq<StationConfig>, id: u16, i: int)
    requires
        0 <= i < stations.len(),
        stations[i].id == id,
        forall|k: int| 0 <= k < i ==> stations[k].id != id,
    ensures
        spec_find_station(stations, id) == Some(stations[i]),
    decreases i,
{
    if i > 0 {
        lemma_find_station_first(stations.drop_first(), id, i - 1);
    }
}

/// An id held by no station is not found.
pub proof fn lemma_find_station_absent(stations: Seq<StationConfig>, id: u16)
    requires
        forall|k: int| 0 <= k < stations.len() ==> stations[k].id != id,
    ensures
        spec_find_station(stations, id) is None,
    decreases stations.len(),
{
    if stations.len() > 0 {
        lemma_find_station_absent(stations.drop_first(), id);
    }
}

} // verus!
