//! Process-wide configuration: the default TTL, the zone index, and the
//! policy for unconfigured names, together with what a loader derives while
//! bringing zones in: the acceptance rule (NS without SOA rejects a zone),
//! origin normalization, and the SOA serial drawn from the zone file's
//! modification time.
use vstd::prelude::*;
use crate::names::{lower_char, lower_seq, normal_name, normalize_name};
use crate::records::ZoneConfig;
use chrono::Datelike;
use chrono::Timelike;

verus! {

/// The largest TTL, in minutes, whose value in seconds still fits `u32`.
pub const MAX_TTL_MINUTES: u32 = 71582788;

/// What to answer when no record exists for a query: stay silent, refuse,
/// or report the name as non-existent.
#[derive(Debug, Clone, Copy, PartialEq, Eq, Structural)]
pub enum UnconfiguredPolicy {
    Drop,
    Refused,
    NxDomain,
}

/// The policy a piece of text names, compared without regard to ASCII case.
pub open spec fn policy_of(s: Seq<char>) -> Option<UnconfiguredPolicy> {
    if lower_seq(s) == "drop"@ {
        Some(UnconfiguredPolicy::Drop)
    } else if lower_seq(s) == "refused"@ {
        Some(UnconfiguredPolicy::Refused)
    } else if lower_seq(s) == "nxdomain"@ {
        Some(UnconfiguredPolicy::NxDomain)
    } else {
        None
    }
}

/// Case-folded comparison of `s` against a lowercase word.
fn eq_ignore_case(s: &str, word: &str) -> (r: bool)
    ensures
        r == (lower_seq(s@) == word@),
{
    let ls = s.unicode_len();
    let lw = word.unicode_len();
    if ls != lw {
        return false;
    }
    let mut i: usize = 0;
    while i < ls
        invariant
            i <= ls,
            ls == s@.len(),
            ls == word@.len(),
            forall|k: int| 0 <= k < i ==> lower_seq(s@)[k] == word@[k],
        decreases ls - i,
    {
        if lower_char(s.get_char(i)) != word.get_char(i) {
            proof {
                assert(lower_seq(s@)[i as int] != word@[i as int]);
            }
            return false;
        }
        i += 1;
    }
    proof {
        assert(lower_seq(s@) =~= word@);
    }
    true
}

impl UnconfiguredPolicy {
    /// Read a policy name, case-insensitively: `DROP`, `REFUSED` or
    /// `NXDOMAIN`; anything else is an error.
    pub fn from_str(s: &str) -> (r: Result<UnconfiguredPolicy, ()>)
        ensures
            r == match policy_of(s@) {
                Some(p) => Ok::<UnconfiguredPolicy, ()>(p),
                None => Err::<UnconfiguredPolicy, ()>(()),
            },
    {
        proof {
            reveal_strlit("drop");
            reveal_strlit("refused");
            reveal_strlit("nxdomain");
        }
        if eq_ignore_case(s, "drop") {
            Ok(UnconfiguredPolicy::Drop)
        } else if eq_ignore_case(s, "refused") {
            Ok(UnconfiguredPolicy::Refused)
        } else if eq_ignore_case(s, "nxdomain") {
            Ok(UnconfiguredPolicy::NxDomain)
        } else {
            Err(())
        }
    }

    /// The policy chosen at startup: the value of the policy variable when
    /// it is set and names a policy, `NxDomain` otherwise.
    pub fn from_env_value(v: Option<&String>) -> (r: UnconfiguredPolicy)
        ensures
            r == match v {
                Some(s) => match policy_of(s@) {
                    Some(p) => p,
                    None => UnconfiguredPolicy::NxDomain,
                },
                None => UnconfiguredPolicy::NxDomain,
            },
    {
        match v {
            Some(s) => match Self::from_str(s.as_str()) {
                Ok(p) => p,
                Err(_) => UnconfiguredPolicy::NxDomain,
            },
            None => UnconfiguredPolicy::NxDomain,
        }
    }
}

/// The UTC calendar date and hour that the calendar library reads from a
/// timestamp; a function of the timestamp alone.
pub uninterp spec fn civil_of(secs: u64) -> Option<(i32, u32, u32, u32)>;

/// Relies on `chrono::DateTime::<Utc>::from_timestamp` and the documented
/// `Datelike::year/month/day` and `Timelike::hour` accessors: the UTC
/// calendar date and hour of a timestamp, with month in 1..=12, day in
/// 1..=31 and hour in 0..=23, and nothing before 1970 for a non-negative
/// timestamp; `None` only outside the library's representable range.
#[verifier::external_body]
fn civil_from_timestamp(secs: u64) -> (r: Option<(i32, u32, u32, u32)>)
    requires
        secs <= 0x7fff_ffff_ffff_ffff,
    ensures
        r == civil_of(secs),
        r matches Some(c) ==> 1970 <= c.0 && 1 <= c.1 <= 12 && 1 <= c.2 <= 31 && c.3 <= 23,
{
    match chrono::DateTime::<chrono::Utc>::from_timestamp(secs as i64, 0) {
        Some(dt) => Some((dt.year(), dt.month(), dt.day(), dt.hour())),
        None => None,
    }
}

/// The serial derived from a zone file's modification time: the decimal
/// reading of `YYYYMMDDHH` in UTC, or, where that value does not fit `u32`
/// or the time has no calendar form, the seconds since the epoch truncated
/// to `u32`.
pub open spec fn serial_spec(secs: u64) -> u32 {
    if secs > 0x7fff_ffff_ffff_ffff {
        secs as u32
    } else {
        match civil_of(secs) {
            Some(c) => {
                let v = c.0 * 1000000 + c.1 * 10000 + c.2 * 100 + c.3;
                if 0 <= v <= 0xffff_ffff {
                    v as u32
                } else {
                    secs as u32
                }
            },
            None => secs as u32,
        }
    }
}

/// Derive the SOA serial from a modification time given as seconds since
/// the epoch.
pub fn generate_serial(secs: u64) -> (r: u32)
    ensures
        r == serial_spec(secs),
{
    if secs > 0x7fff_ffff_ffff_ffff {
        return #[verifier::truncate] (secs as u32);
    }
    match civil_from_timestamp(secs) {
        Some((y, m, d, h)) => {
            let v: i64 = (y as i64) * 1000000 + (m as i64) * 10000 + (d as i64) * 100 + (h as i64);
            if 0 <= v && v <= 0xffff_ffff {
                v as u32
            } else {
                #[verifier::truncate] (secs as u32)
            }
        },
        None => #[verifier::truncate] (secs as u32),
    }
}

/// A zone with apex NS records must carry an SOA block; such a zone is
/// otherwise rejected at load.
pub open spec fn zone_acceptable_spec(z: ZoneConfig) -> bool {
    z.apex.ns@.len() == 0 || z.soa is Some
}

/// Whether a loaded zone is kept: NS records at the apex demand an SOA
/// block.
pub fn zone_acceptable(z: &ZoneConfig) -> (r: bool)
    ensures
        r == zone_acceptable_spec(*z),
{
    z.apex.ns.len() == 0 || z.soa.is_some()
}

/// The zones kept out of a loaded list, in order: each acceptable zone
/// under its normalized origin (lowercase, one trailing dot removed).
pub open spec fn accepted_zones(zs: Seq<(String, ZoneConfig)>) -> Seq<(Seq<char>, ZoneConfig)>
    decreases zs.len(),
{
    if zs.len() == 0 {
        Seq::empty()
    } else {
        let rest = accepted_zones(zs.drop_first());
        if zone_acceptable_spec(zs[0].1) {
            seq![(normal_name(zs[0].0@), zs[0].1)] + rest
        } else {
            rest
        }
    }
}

/// The origins-and-zones of an index, as character sequences.
pub open spec fn zones_view(zs: Seq<(String, ZoneConfig)>) -> Seq<(Seq<char>, ZoneConfig)> {
    zs.map_values(|p: (String, ZoneConfig)| (p.0@, p.1))
}

/// The process-wide configuration: default TTL in minutes, the zone index
/// in load order, and the policy for unconfigured names. Immutable for the
/// process lifetime.
#[derive(Debug, Clone, PartialEq, Eq)]
pub struct AppConfig {
    pub default_ttl: u32,
    pub zones: Vec<(String, ZoneConfig)>,
    pub unconfigured_policy: UnconfiguredPolicy,
}

impl AppConfig {
    /// Every TTL small enough that its value in seconds fits `u32`.
    pub open spec fn ttl_bounded(&self) -> bool {
        &&& self.default_ttl <= MAX_TTL_MINUTES
        &&& forall|i: int|
            #![trigger self.zones@[i]]
            0 <= i < self.zones@.len() ==> (self.zones@[i].1.ttl matches Some(t) ==> t
                <= MAX_TTL_MINUTES)
    }

    /// Check the TTL bounds of every zone and of the default.
    pub fn ttl_bounds_ok(&self) -> (r: bool)
        ensures
            r == self.ttl_bounded(),
    {
        if self.default_ttl > MAX_TTL_MINUTES {
            return false;
        }
        let n = self.zones.len();
        let mut i: usize = 0;
        while i < n
            invariant
                i <= n,
                n == self.zones@.len(),
                self.default_ttl <= MAX_TTL_MINUTES,
                forall|k: int|
                    #![trigger self.zones@[k]]
                    0 <= k < i ==> (self.zones@[k].1.ttl matches Some(t) ==> t
                        <= MAX_TTL_MINUTES),
            decreases n - i,
        {
            match self.zones[i].1.ttl {
                Some(t) => {
                    if t > MAX_TTL_MINUTES {
                        return false;
                    }
                },
                None => {},
            }
            i += 1;
        }
        true
    }

    /// Assemble the configuration from loaded zones: acceptable zones are
    /// kept in load order under normalized origins; a zone with apex NS
    /// records but no SOA block is dropped.
    pub fn build(
        default_ttl: u32,
        zones: Vec<(String, ZoneConfig)>,
        unconfigured_policy: UnconfiguredPolicy,
    ) -> (c: AppConfig)
        ensures
            c.default_ttl == default_ttl,
            c.unconfigured_policy == unconfigured_policy,
            zones_view(c.zones@) == accepted_zones(zones@),
    {
        let mut pending = zones;
        let mut kept: Vec<(String, ZoneConfig)> = Vec::new();
        while pending.len() > 0
            invariant
                zones_view(kept@) + accepted_zones(pending@) == accepted_zones(zones@),
            decreases pending.len(),
        {
            let ghost before = pending@;
            let (origin, zone) = pending.remove(0);
            proof {
                assert(pending@ =~= before.drop_first());
            }
            if zone_acceptable(&zone) {
                let norm = normalize_name(origin.as_str());
                kept.push((norm, zone));
                proof {
                    assert(zones_view(kept@) =~= zones_view(kept@.drop_last()) + seq![
                        (normal_name(origin@), zone),
                    ]);
                    assert(zones_view(kept@) + accepted_zones(pending@) =~= accepted_zones(
                        zones@,
                    ));
                }
            }
        }
        proof {
            assert(zones_view(kept@) =~= accepted_zones(zones@));
        }
        AppConfig { default_ttl, zones: kept, unconfigured_policy }
    }
}

} // verus!
