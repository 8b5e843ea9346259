//! The resolution pipeline: normalize the query name, find the zone by
//! longest matching origin, pick the record set for the apex or the named
//! subdomain, let a country lookup override it where allowed, and render
//! the typed answers.
//!
//! The country lookup is outside work, so one resolve call runs in at most
//! two steps: `resolve_start` either finishes on its own or hands back one
//! `PendingGeo`, whose completion takes the lookup's result and finishes.
//! The step type has no way back from completion to another lookup, so a
//! resolve call performs at most one.
use vstd::prelude::*;
use crate::answer::{DnsQuery, RecordModel, RecordType};
use crate::config::AppConfig;
use crate::ip::IpAddress;
use crate::names::{matches_origin, normal_name, normalize_name, sub_remainder, has_origin_suffix};
use crate::records::{assoc_find, assoc_idx, RecordSet, SOARecord, ZoneConfig};
use crate::render::{build_response_records, render_spec};

verus! {

/// The index of the winning zone: among the origins that match the name,
/// the longest; among equally long ones, the first configured.
pub open spec fn find_zone_at(
    zones: Seq<(String, ZoneConfig)>,
    name: Seq<char>,
    n: int,
) -> Option<int>
    decreases n,
{
    if n <= 0 {
        None
    } else {
        let prev = find_zone_at(zones, name, n - 1);
        if matches_origin(name, zones[n - 1].0@) {
            match prev {
                Some(j) => if zones[n - 1].0@.len() > zones[j].0@.len() {
                    Some(n - 1)
                } else {
                    Some(j)
                },
                None => Some(n - 1),
            }
        } else {
            prev
        }
    }
}

/// The index of the zone answering for `name`, if any origin matches it.
pub open spec fn find_zone_spec(zones: Seq<(String, ZoneConfig)>, name: Seq<char>) -> Option<int> {
    find_zone_at(zones, name, zones.len() as int)
}

/// The record set and country map the query name selects within its zone:
/// the apex pair for the origin itself, the named subdomain's pair where
/// one is configured, and nothing otherwise — a missing subdomain never
/// falls back to the apex.
pub open spec fn candidate_spec(
    zone: ZoneConfig,
    norm: Seq<char>,
    origin: Seq<char>,
) -> Option<(RecordSet, Seq<(String, RecordSet)>)> {
    if norm == origin {
        Some((zone.apex, zone.country@))
    } else {
        match assoc_idx(zone.subdomains@, sub_remainder(norm, origin)) {
            Some(j) => Some(
                (zone.subdomains@[j].1.records, zone.subdomains@[j].1.country@),
            ),
            None => None,
        }
    }
}

/// The country override, if one applies: nothing for a blocked source
/// (loopback, private IPv4), nothing without a country, nothing for a
/// country the map does not list; otherwise that country's record set.
pub open spec fn geo_override_spec(
    cmap: Seq<(String, RecordSet)>,
    ip: IpAddress,
    country: Option<Seq<char>>,
) -> Option<RecordSet> {
    if ip.geo_blocked_spec() {
        None
    } else {
        match country {
            Some(c) => match assoc_idx(cmap, c) {
                Some(j) => Some(cmap[j].1),
                None => None,
            },
            None => None,
        }
    }
}

/// The TTL of every answer, in seconds: the zone's TTL in minutes, or the
/// default where the zone sets none, times sixty.
pub open spec fn effective_ttl(zttl: Option<u32>, dttl: u32) -> u32 {
    ((match zttl {
        Some(t) => t as int,
        None => dttl as int,
    }) * 60) as u32
}

/// The country result as a character sequence.
pub open spec fn opt_str_view(c: Option<String>) -> Option<Seq<char>> {
    match c {
        Some(s) => Some(s@),
        None => None,
    }
}

/// The full resolution of one query: the ordered answer list produced for
/// the query name, the asked type, the source address and the country the
/// lookup reported (if one was performed).
pub open spec fn resolve_spec(
    cfg: AppConfig,
    qname: Seq<char>,
    qtype: RecordType,
    ip: IpAddress,
    country: Option<Seq<char>>,
) -> Seq<RecordModel> {
    let norm = normal_name(qname);
    match find_zone_spec(cfg.zones@, norm) {
        None => Seq::empty(),
        Some(i) => {
            let origin = cfg.zones@[i].0@;
            let zone = cfg.zones@[i].1;
            match candidate_spec(zone, norm, origin) {
                None => Seq::empty(),
                Some(cand) => {
                    let chosen = match geo_override_spec(cand.1, ip, country) {
                        Some(rs) => rs,
                        None => cand.0,
                    };
                    let soa = if norm == origin {
                        zone.soa
                    } else {
                        Option::<SOARecord>::None
                    };
                    render_spec(
                        qname,
                        qtype,
                        effective_ttl(zone.ttl, cfg.default_ttl),
                        chosen,
                        soa,
                    )
                },
            }
        },
    }
}

proof fn lemma_find_zone_at_longest(zones: Seq<(String, ZoneConfig)>, name: Seq<char>, n: int)
    requires
        0 <= n <= zones.len(),
    ensures
        match find_zone_at(zones, name, n) {
            Some(i) => {
                &&& 0 <= i < n
                &&& matches_origin(name, zones[i].0@)
                &&& forall|j: int|
                    0 <= j < n && #[trigger] matches_origin(name, zones[j].0@)
                        ==> zones[j].0@.len() <= zones[i].0@.len()
            },
            None => forall|j: int| 0 <= j < n ==> !(#[trigger] matches_origin(name, zones[j].0@)),
        },
    decreases n,
{
    if n > 0 {
        lemma_find_zone_at_longest(zones, name, n - 1);
    }
}

/// Law: the zone lookup picks an origin that matches the name and is the
/// longest matching one, and fails exactly when no origin matches.
pub proof fn lemma_find_zone_longest(zones: Seq<(String, ZoneConfig)>, name: Seq<char>)
    ensures
        match find_zone_spec(zones, name) {
            Some(i) => {
                &&& 0 <= i < zones.len()
                &&& matches_origin(name, zones[i].0@)
                &&& forall|j: int|
                    0 <= j < zones.len() && #[trigger] matches_origin(name, zones[j].0@)
                        ==> zones[j].0@.len() <= zones[i].0@.len()
            },
            None => forall|j: int|
                0 <= j < zones.len() ==> !(#[trigger] matches_origin(name, zones[j].0@)),
        },
{
    lemma_find_zone_at_longest(zones, name, zones.len() as int);
}

/// Law: every answer record carries the TTL computed for the answering
/// zone — the zone's TTL in minutes, or the default where it sets none,
/// times sixty — and the query name as it stands on the wire; a query no
/// zone answers gets no records.
pub proof fn lemma_resolve_ttl_and_name(
    cfg: AppConfig,
    qname: Seq<char>,
    qtype: RecordType,
    ip: IpAddress,
    country: Option<Seq<char>>,
)
    ensures
        match find_zone_spec(cfg.zones@, normal_name(qname)) {
            Some(i) => forall|k: int|
                0 <= k < resolve_spec(cfg, qname, qtype, ip, country).len() ==> {
                    &&& (#[trigger] resolve_spec(cfg, qname, qtype, ip, country)[k]).ttl
                        == effective_ttl(cfg.zones@[i].1.ttl, cfg.default_ttl)
                    &&& resolve_spec(cfg, qname, qtype, ip, country)[k].name == qname
                },
            None => resolve_spec(cfg, qname, qtype, ip, country).len() == 0,
        },
{
    let norm = normal_name(qname);
    match find_zone_spec(cfg.zones@, norm) {
        Some(i) => {
            let origin = cfg.zones@[i].0@;
            let zone = cfg.zones@[i].1;
            match candidate_spec(zone, norm, origin) {
                Some(cand) => {
                    let chosen = match geo_override_spec(cand.1, ip, country) {
                        Some(rs) => rs,
                        None => cand.0,
                    };
                    let soa = if norm == origin {
                        zone.soa
                    } else {
                        Option::<SOARecord>::None
                    };
                    crate::render::lemma_render_uniform(
                        qname,
                        qtype,
                        effective_ttl(zone.ttl, cfg.default_ttl),
                        chosen,
                        soa,
                    );
                },
                None => {},
            }
        },
        None => {},
    }
}

/// Law: a SOA record stands in an answer only for a SOA query whose
/// normalized name is exactly the answering zone's origin, and only when
/// that zone configures an SOA block.
pub proof fn lemma_soa_only_at_origin(
    cfg: AppConfig,
    qname: Seq<char>,
    qtype: RecordType,
    ip: IpAddress,
    country: Option<Seq<char>>,
)
    ensures
        forall|k: int|
            0 <= k < resolve_spec(cfg, qname, qtype, ip, country).len() ==> ((#[trigger] resolve_spec(
                cfg,
                qname,
                qtype,
                ip,
                country,
            )[k]).data is Soa ==> {
                &&& qtype == RecordType::Soa
                &&& match find_zone_spec(cfg.zones@, normal_name(qname)) {
                    Some(i) => normal_name(qname) == cfg.zones@[i].0@ && cfg.zones@[i].1.soa
                        is Some,
                    None => false,
                }
            }),
{
    let norm = normal_name(qname);
    match find_zone_spec(cfg.zones@, norm) {
        Some(i) => {
            let origin = cfg.zones@[i].0@;
            let zone = cfg.zones@[i].1;
            match candidate_spec(zone, norm, origin) {
                Some(cand) => {
                    let chosen = match geo_override_spec(cand.1, ip, country) {
                        Some(rs) => rs,
                        None => cand.0,
                    };
                    let soa = if norm == origin {
                        zone.soa
                    } else {
                        Option::<SOARecord>::None
                    };
                    crate::render::lemma_render_uniform(
                        qname,
                        qtype,
                        effective_ttl(zone.ttl, cfg.default_ttl),
                        chosen,
                        soa,
                    );
                },
                None => {},
            }
        },
        None => {},
    }
}

/// Law: a SOA query whose normalized name is exactly a zone's origin, on a
/// zone that configures an SOA block, answers with exactly one record: the
/// synthesized SOA carrying that block — its derived serial unchanged, the
/// documented defaults for absent fields — under the computed TTL,
/// whatever the source address and whatever country a lookup reported.
pub proof fn lemma_soa_answer_carries_block(
    cfg: AppConfig,
    qname: Seq<char>,
    ip: IpAddress,
    country: Option<Seq<char>>,
)
    ensures
        match find_zone_spec(cfg.zones@, normal_name(qname)) {
            Some(i) => match cfg.zones@[i].1.soa {
                Some(soa) => normal_name(qname) == cfg.zones@[i].0@ ==> resolve_spec(
                    cfg,
                    qname,
                    RecordType::Soa,
                    ip,
                    country,
                ) == seq![
                    crate::render::soa_record_spec(
                        qname,
                        effective_ttl(cfg.zones@[i].1.ttl, cfg.default_ttl),
                        soa,
                    ),
                ],
                None => true,
            },
            None => true,
        },
{
    let norm = normal_name(qname);
    match find_zone_spec(cfg.zones@, norm) {
        Some(i) => {
            let origin = cfg.zones@[i].0@;
            let zone = cfg.zones@[i].1;
            if norm == origin {
                match zone.soa {
                    Some(soa) => {
                        assert(resolve_spec(cfg, qname, RecordType::Soa, ip, country) =~= seq![
                            crate::render::soa_record_spec(
                                qname,
                                effective_ttl(zone.ttl, cfg.default_ttl),
                                soa,
                            ),
                        ]);
                    },
                    None => {},
                }
            }
        },
        None => {},
    }
}

/// A resolve call waiting for its country lookup: everything already
/// selected, so that the lookup's result alone finishes the call.
pub struct PendingGeo<'a> {
    pub name: &'a String,
    pub qtype: RecordType,
    pub ttl: u32,
    pub records: &'a RecordSet,
    pub country: &'a Vec<(String, RecordSet)>,
    pub soa: Option<&'a SOARecord>,
}

/// The specification image of a pending resolve call.
pub struct PendingModel {
    pub name: Seq<char>,
    pub qtype: RecordType,
    pub ttl: u32,
    pub records: RecordSet,
    pub country: Seq<(String, RecordSet)>,
    pub soa: Option<SOARecord>,
}

impl<'a> View for PendingGeo<'a> {
    type V = PendingModel;

    open spec fn view(&self) -> PendingModel {
        PendingModel {
            name: self.name@,
            qtype: self.qtype,
            ttl: self.ttl,
            records: *self.records,
            country: self.country@,
            soa: match self.soa {
                Some(s) => Some(*s),
                None => None,
            },
        }
    }
}

/// What a pending resolve call answers for each possible lookup result.
pub open spec fn finish_spec(p: PendingModel, country: Option<Seq<char>>) -> Seq<RecordModel> {
    let chosen = match country {
        Some(c) => match assoc_idx(p.country, c) {
            Some(j) => p.country[j].1,
            None => p.records,
        },
        None => p.records,
    };
    render_spec(p.name, p.qtype, p.ttl, chosen, p.soa)
}

/// One resolve call either finishes at once or asks for exactly one
/// country lookup; there is no third state and no way to ask twice.
pub enum ResolveStep<'a> {
    Done(Vec<crate::answer::DnsRecord>),
    NeedCountry(PendingGeo<'a>),
}

impl<'a> PendingGeo<'a> {
    /// Finish the resolve call with the country the lookup reported, or
    /// with nothing where the lookup failed or reported none.
    pub fn complete(self, country: Option<String>) -> (r: Vec<crate::answer::DnsRecord>)
        ensures
            r.deep_view() == finish_spec(self@, opt_str_view(country)),
    {
        let chosen: &RecordSet = match &country {
            Some(code) => match assoc_find(self.country, code.as_str()) {
                Some(j) => &self.country[j].1,
                None => self.records,
            },
            None => self.records,
        };
        build_response_records(self.name, self.qtype, self.ttl, chosen, self.soa)
    }
}

/// The resolver: the process configuration, read-only, answering queries as
/// ordered record lists.
pub struct DnsResolver {
    pub config: AppConfig,
}

impl DnsResolver {
    /// A resolver over the given configuration.
    pub fn new(config: AppConfig) -> (r: Self)
        ensures
            r.config == config,
    {
        DnsResolver { config }
    }

    /// The configuration this resolver answers from.
    pub fn config(&self) -> (r: &AppConfig)
        ensures
            r == &self.config,
    {
        &self.config
    }

    /// Find the zone whose origin matches the normalized query name and is
    /// the longest such origin.
    pub fn find_zone(&self, lookup: &str) -> (r: Option<usize>)
        ensures
            match r {
                Some(i) => {
                    &&& i < self.config.zones@.len()
                    &&& find_zone_spec(self.config.zones@, lookup@) == Some(i as int)
                    &&& matches_origin(lookup@, self.config.zones@[i as int].0@)
                },
                None => find_zone_spec(self.config.zones@, lookup@) is None,
            },
    {
        let n = self.config.zones.len();
        let mut best: Option<usize> = None;
        let mut i: usize = 0;
        while i < n
            invariant
                i <= n,
                n == self.config.zones@.len(),
                match best {
                    Some(j) => j < i && matches_origin(lookup@, self.config.zones@[j as int].0@)
                        && find_zone_at(self.config.zones@, lookup@, i as int) == Some(j as int),
                    None => find_zone_at(self.config.zones@, lookup@, i as int) is None,
                },
            decreases n - i,
        {
            if has_origin_suffix(lookup, self.config.zones[i].0.as_str()) {
                match best {
                    Some(j) => {
                        let cur = self.config.zones[i].0.as_str().unicode_len();
                        let old_len = self.config.zones[j].0.as_str().unicode_len();
                        if cur > old_len {
                            best = Some(i);
                        }
                    },
                    None => {
                        best = Some(i);
                    },
                }
            }
            i += 1;
        }
        best
    }

    /// Begin resolving one query: everything up to the country lookup. The
    /// call finishes at once — with an empty list for an unknown zone or an
    /// unlisted subdomain, and with the default records for a blocked
    /// source — or hands back the one pending lookup.
    pub fn resolve_start<'a>(&'a self, query: &'a DnsQuery, source_ip: IpAddress) -> (r:
        ResolveStep<'a>)
        requires
            self.config.ttl_bounded(),
        ensures
            match r {
                ResolveStep::Done(a) => forall|c: Option<Seq<char>>|
                    a.deep_view() == resolve_spec(
                        self.config,
                        query.name@,
                        query.qtype,
                        source_ip,
                        c,
                    ),
                ResolveStep::NeedCountry(p) => !source_ip.geo_blocked_spec() && forall|
                    c: Option<Seq<char>>,
                |
                    finish_spec(p@, c) == resolve_spec(
                        self.config,
                        query.name@,
                        query.qtype,
                        source_ip,
                        c,
                    ),
            },
            source_ip.geo_blocked_spec() ==> r is Done,
    {
        let norm = normalize_name(query.name.as_str());
        let zi = match self.find_zone(norm.as_str()) {
            Some(i) => i,
            None => {
                return ResolveStep::Done(Vec::new());
            },
        };
        let origin: &String = &self.config.zones[zi].0;
        let zone: &ZoneConfig = &self.config.zones[zi].1;
        let onl = origin.as_str().unicode_len();
        let nl = norm.as_str().unicode_len();
        let apex = onl == nl;
        proof {
            if apex {
                assert(norm@.subrange(norm@.len() - origin@.len(), norm@.len() as int) =~= norm@);
                assert(norm@ == origin@);
            } else {
                assert(norm@ != origin@);
            }
        }
        let picked: Option<(&RecordSet, &Vec<(String, RecordSet)>, Option<&SOARecord>)> = if apex {
            Some((&zone.apex, &zone.country, zone.soa.as_ref()))
        } else {
            let sub = norm.as_str().substring_char(0, nl - onl - 1);
            proof {
                assert(sub@ =~= sub_remainder(norm@, origin@));
            }
            match assoc_find(&zone.subdomains, sub) {
                Some(j) => Some(
                    (&zone.subdomains[j].1.records, &zone.subdomains[j].1.country, None),
                ),
                None => None,
            }
        };
        let (records, cmap, soa) = match picked {
            Some(t) => t,
            None => {
                return ResolveStep::Done(Vec::new());
            },
        };
        let minutes = match zone.ttl {
            Some(t) => t,
            None => self.config.default_ttl,
        };
        let ttl = minutes * 60;
        if source_ip.geo_blocked() {
            ResolveStep::Done(
                build_response_records(&query.name, query.qtype, ttl, records, soa),
            )
        } else {
            ResolveStep::NeedCountry(
                PendingGeo {
                    name: &query.name,
                    qtype: query.qtype,
                    ttl,
                    records,
                    country: cmap,
                    soa,
                },
            )
        }
    }

    /// Resolve one query, given the country a lookup reported for the
    /// source (if the caller performed one). An unknown zone and an
    /// unlisted subdomain answer empty; a blocked source answers from the
    /// default records whatever country is handed in.
    pub fn resolve(&self, query: &DnsQuery, source_ip: IpAddress, country: Option<String>) -> (r:
        Vec<crate::answer::DnsRecord>)
        requires
            self.config.ttl_bounded(),
        ensures
            r.deep_view() == resolve_spec(
                self.config,
                query.name@,
                query.qtype,
                source_ip,
                opt_str_view(country),
            ),
            find_zone_spec(self.config.zones@, normal_name(query.name@)) is None ==> r@.len()
                == 0,
            (forall|i: int|
                0 <= i < self.config.zones@.len() ==> !(#[trigger] matches_origin(
                    normal_name(query.name@),
                    self.config.zones@[i].0@,
                ))) ==> r@.len() == 0,
            (match find_zone_spec(self.config.zones@, normal_name(query.name@)) {
                Some(i) => candidate_spec(
                    self.config.zones@[i].1,
                    normal_name(query.name@),
                    self.config.zones@[i].0@,
                ) is None ==> r@.len() == 0,
                None => true,
            }),
            source_ip.geo_blocked_spec() ==> r.deep_view() == resolve_spec(
                self.config,
                query.name@,
                query.qtype,
                source_ip,
                None,
            ),
    {
        proof {
            lemma_find_zone_longest(self.config.zones@, normal_name(query.name@));
        }
        let r = match self.resolve_start(query, source_ip) {
            ResolveStep::Done(a) => a,
            ResolveStep::NeedCountry(p) => p.complete(country),
        };
        proof {
            if resolve_spec(
                self.config,
                query.name@,
                query.qtype,
                source_ip,
                opt_str_view(country),
            ).len() != 0 {
                assert(r.deep_view().len() == resolve_spec(
                    self.config,
                    query.name@,
                    query.qtype,
                    source_ip,
                    opt_str_view(country),
                ).len());
            }
        }
        r
    }
}

} // verus!
