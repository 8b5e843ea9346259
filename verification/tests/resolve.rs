use lazy_dns::answer::{DnsQuery, RecordData, RecordType};
use lazy_dns::config::{AppConfig, UnconfiguredPolicy};
use lazy_dns::ip::{IpAddress, Ipv4Quad, Ipv6Segments};
use lazy_dns::records::{MXRecord, RecordSet, SOARecord, Subdomain, ZoneConfig};
use lazy_dns::resolver::{DnsResolver, ResolveStep};
use lazy_dns::response::{plan_response, DnsRequest, ResponseCode};

fn empty_rs() -> RecordSet {
    RecordSet {
        a: vec![],
        aaaa: vec![],
        cname: vec![],
        mx: vec![],
        txt: vec![],
        ns: vec![],
    }
}

fn zone_with_apex_a(addrs: &[&str]) -> ZoneConfig {
    let mut rs = empty_rs();
    rs.a = addrs.iter().map(|s| s.to_string()).collect();
    ZoneConfig { ttl: None, soa: None, apex: rs, country: vec![], subdomains: vec![] }
}

fn resolver_for(zone: ZoneConfig, policy: UnconfiguredPolicy) -> DnsResolver {
    let cfg = AppConfig {
        default_ttl: 5,
        zones: vec![("example.com".to_string(), zone)],
        unconfigured_policy: policy,
    };
    DnsResolver::new(cfg)
}

fn loopback() -> IpAddress {
    IpAddress::V4(Ipv4Quad { a: 127, b: 0, c: 0, d: 1 })
}

fn public_ip() -> IpAddress {
    IpAddress::V4(Ipv4Quad { a: 203, b: 0, c: 113, d: 5 })
}

fn query(name: &str, qtype: RecordType) -> DnsQuery {
    DnsQuery { name: name.to_string(), qtype }
}

#[test]
fn apex_a_answer_with_default_ttl() {
    let resolver = resolver_for(zone_with_apex_a(&["192.0.2.1"]), UnconfiguredPolicy::NxDomain);
    let q = query("example.com", RecordType::A);
    let answers = resolver.resolve(&q, loopback(), None);
    assert_eq!(answers.len(), 1);
    assert_eq!(answers[0].name, "example.com");
    assert_eq!(answers[0].ttl, 300);
    assert_eq!(answers[0].data, RecordData::A(Ipv4Quad { a: 192, b: 0, c: 2, d: 1 }));
    let req = DnsRequest { id: 9, message_is_query: true, opcode_is_query: true, queries: vec![q] };
    let plan = plan_response(req, UnconfiguredPolicy::NxDomain, answers).unwrap();
    assert_eq!(plan.rcode, ResponseCode::NoError);
    assert_eq!(plan.answers.len(), 1);
}

#[test]
fn aaaa_query_on_a_only_zone_is_empty_and_nxdomain() {
    let resolver = resolver_for(zone_with_apex_a(&["192.0.2.1"]), UnconfiguredPolicy::NxDomain);
    let q = query("example.com", RecordType::Aaaa);
    let answers = resolver.resolve(&q, loopback(), None);
    assert!(answers.is_empty());
    let req = DnsRequest { id: 9, message_is_query: true, opcode_is_query: true, queries: vec![q] };
    let plan = plan_response(req, UnconfiguredPolicy::NxDomain, answers).unwrap();
    assert_eq!(plan.rcode, ResponseCode::NxDomain);
}

#[test]
fn unknown_zone_is_empty_and_refused() {
    let resolver = resolver_for(zone_with_apex_a(&["192.0.2.1"]), UnconfiguredPolicy::Refused);
    let q = query("unknown.tld", RecordType::A);
    let answers = resolver.resolve(&q, loopback(), None);
    assert!(answers.is_empty());
    let req = DnsRequest { id: 9, message_is_query: true, opcode_is_query: true, queries: vec![q] };
    let plan = plan_response(req, UnconfiguredPolicy::Refused, answers).unwrap();
    assert_eq!(plan.rcode, ResponseCode::Refused);
}

#[test]
fn partial_label_suffix_does_not_match() {
    let resolver = resolver_for(zone_with_apex_a(&["192.0.2.1"]), UnconfiguredPolicy::NxDomain);
    let answers = resolver.resolve(&query("notexample.com", RecordType::A), loopback(), None);
    assert!(answers.is_empty());
}

#[test]
fn trailing_dot_and_case_are_normalized() {
    let resolver = resolver_for(zone_with_apex_a(&["192.0.2.1"]), UnconfiguredPolicy::NxDomain);
    let answers = resolver.resolve(&query("ExAmPlE.CoM.", RecordType::A), loopback(), None);
    assert_eq!(answers.len(), 1);
    // the answer carries the name as asked, not the normalized form
    assert_eq!(answers[0].name, "ExAmPlE.CoM.");
}

#[test]
fn unlisted_subdomain_has_no_apex_fallback() {
    let mut zone = zone_with_apex_a(&["192.0.2.1"]);
    zone.subdomains = vec![(
        "www".to_string(),
        Subdomain { records: zone_with_apex_a(&["192.0.2.2"]).apex, country: vec![] },
    )];
    let resolver = resolver_for(zone, UnconfiguredPolicy::NxDomain);
    let answers = resolver.resolve(&query("mail.example.com", RecordType::A), loopback(), None);
    assert!(answers.is_empty());
}

#[test]
fn listed_subdomain_answers_its_own_records() {
    let mut zone = zone_with_apex_a(&["192.0.2.1"]);
    zone.subdomains = vec![(
        "www".to_string(),
        Subdomain { records: zone_with_apex_a(&["192.0.2.2"]).apex, country: vec![] },
    )];
    let resolver = resolver_for(zone, UnconfiguredPolicy::NxDomain);
    let answers = resolver.resolve(&query("www.example.com", RecordType::A), loopback(), None);
    assert_eq!(answers.len(), 1);
    assert_eq!(answers[0].data, RecordData::A(Ipv4Quad { a: 192, b: 0, c: 2, d: 2 }));
}

#[test]
fn longest_matching_origin_wins() {
    let cfg = AppConfig {
        default_ttl: 5,
        zones: vec![
            ("example.com".to_string(), zone_with_apex_a(&["192.0.2.1"])),
            ("sub.example.com".to_string(), zone_with_apex_a(&["192.0.2.9"])),
        ],
        unconfigured_policy: UnconfiguredPolicy::NxDomain,
    };
    let resolver = DnsResolver::new(cfg);
    let answers = resolver.resolve(&query("a.sub.example.com", RecordType::A), loopback(), None);
    // a.sub.example.com is not a configured subdomain of sub.example.com
    assert!(answers.is_empty());
    let answers = resolver.resolve(&query("sub.example.com", RecordType::A), loopback(), None);
    assert_eq!(answers.len(), 1);
    assert_eq!(answers[0].data, RecordData::A(Ipv4Quad { a: 192, b: 0, c: 2, d: 9 }));
}

#[test]
fn geo_override_replaces_default() {
    let mut zone = zone_with_apex_a(&["1.1.1.1"]);
    zone.country = vec![("US".to_string(), zone_with_apex_a(&["2.2.2.2"]).apex)];
    let resolver = resolver_for(zone, UnconfiguredPolicy::NxDomain);
    let q = query("example.com", RecordType::A);
    match resolver.resolve_start(&q, public_ip()) {
        ResolveStep::NeedCountry(pending) => {
            let answers = pending.complete(Some("US".to_string()));
            assert_eq!(answers.len(), 1);
            assert_eq!(answers[0].data, RecordData::A(Ipv4Quad { a: 2, b: 2, c: 2, d: 2 }));
        }
        ResolveStep::Done(_) => panic!("a public source must ask for the country"),
    }
}

#[test]
fn geo_unlisted_country_falls_back() {
    let mut zone = zone_with_apex_a(&["1.1.1.1"]);
    zone.country = vec![("US".to_string(), zone_with_apex_a(&["2.2.2.2"]).apex)];
    let resolver = resolver_for(zone, UnconfiguredPolicy::NxDomain);
    let answers = resolver.resolve(
        &query("example.com", RecordType::A),
        public_ip(),
        Some("CN".to_string()),
    );
    assert_eq!(answers.len(), 1);
    assert_eq!(answers[0].data, RecordData::A(Ipv4Quad { a: 1, b: 1, c: 1, d: 1 }));
}

#[test]
fn loopback_and_private_sources_never_ask_for_geo() {
    let mut zone = zone_with_apex_a(&["1.1.1.1"]);
    zone.country = vec![("US".to_string(), zone_with_apex_a(&["2.2.2.2"]).apex)];
    let resolver = resolver_for(zone, UnconfiguredPolicy::NxDomain);
    let q = query("example.com", RecordType::A);
    let blocked = [
        IpAddress::V4(Ipv4Quad { a: 127, b: 0, c: 0, d: 1 }),
        IpAddress::V4(Ipv4Quad { a: 10, b: 1, c: 2, d: 3 }),
        IpAddress::V4(Ipv4Quad { a: 172, b: 20, c: 0, d: 1 }),
        IpAddress::V4(Ipv4Quad { a: 192, b: 168, c: 1, d: 1 }),
        IpAddress::V4(Ipv4Quad { a: 169, b: 254, c: 0, d: 1 }),
        IpAddress::V6(Ipv6Segments { s0: 0, s1: 0, s2: 0, s3: 0, s4: 0, s5: 0, s6: 0, s7: 1 }),
    ];
    for ip in blocked {
        match resolver.resolve_start(&q, ip) {
            ResolveStep::Done(answers) => {
                assert_eq!(answers.len(), 1);
                assert_eq!(answers[0].data, RecordData::A(Ipv4Quad { a: 1, b: 1, c: 1, d: 1 }));
            }
            ResolveStep::NeedCountry(_) => panic!("blocked source must not ask for the country"),
        }
    }
    match resolver.resolve_start(&q, IpAddress::V4(Ipv4Quad { a: 8, b: 8, c: 8, d: 8 })) {
        ResolveStep::NeedCountry(_) => {}
        ResolveStep::Done(_) => panic!("a public source must ask for the country"),
    }
}

#[test]
fn invalid_a_entries_are_dropped() {
    let resolver = resolver_for(
        zone_with_apex_a(&["bad", "300.1.1.1", "01.2.3.4", "1.2.3", "192.0.2.7"]),
        UnconfiguredPolicy::NxDomain,
    );
    let answers = resolver.resolve(&query("example.com", RecordType::A), loopback(), None);
    assert_eq!(answers.len(), 1);
    assert_eq!(answers[0].data, RecordData::A(Ipv4Quad { a: 192, b: 0, c: 2, d: 7 }));
}

#[test]
fn aaaa_entries_parse_and_invalid_are_dropped() {
    let mut zone = zone_with_apex_a(&[]);
    zone.apex.aaaa = vec!["::1".to_string(), "nonsense".to_string()];
    let resolver = resolver_for(zone, UnconfiguredPolicy::NxDomain);
    let answers = resolver.resolve(&query("example.com", RecordType::Aaaa), loopback(), None);
    assert_eq!(answers.len(), 1);
    assert_eq!(
        answers[0].data,
        RecordData::Aaaa(Ipv6Segments { s0: 0, s1: 0, s2: 0, s3: 0, s4: 0, s5: 0, s6: 0, s7: 1 })
    );
}

#[test]
fn invalid_cname_entries_are_dropped() {
    let long_label = format!("{}.com", "a".repeat(64));
    let mut zone = zone_with_apex_a(&[]);
    zone.apex.cname = vec!["alias.example.com.".to_string(), long_label];
    let resolver = resolver_for(zone, UnconfiguredPolicy::NxDomain);
    let answers = resolver.resolve(&query("example.com", RecordType::Cname), loopback(), None);
    assert_eq!(answers.len(), 1);
    assert_eq!(answers[0].data, RecordData::Cname("alias.example.com.".to_string()));
}

#[test]
fn any_query_renders_all_types_in_order() {
    let mut zone = zone_with_apex_a(&["192.0.2.1"]);
    zone.apex.aaaa = vec!["::1".to_string()];
    zone.apex.cname = vec!["alias.example.com.".to_string()];
    zone.apex.mx = vec![MXRecord { preference: 10, exchange: "mail.example.com.".to_string() }];
    zone.apex.txt = vec!["v=spf1 mx -all".to_string(), "second".to_string()];
    zone.apex.ns = vec!["ns1.example.com.".to_string()];
    zone.soa = Some(SOARecord {
        mname: "ns1.example.com.".to_string(),
        rname: "admin.example.com.".to_string(),
        refresh: None,
        retry: None,
        expire: None,
        minimum: None,
        serial: 1,
    });
    let resolver = resolver_for(zone, UnconfiguredPolicy::NxDomain);
    let answers = resolver.resolve(&query("example.com", RecordType::Any), loopback(), None);
    let kinds: Vec<u8> = answers
        .iter()
        .map(|r| match &r.data {
            RecordData::A(_) => 0,
            RecordData::Aaaa(_) => 1,
            RecordData::Cname(_) => 2,
            RecordData::Mx(_, _) => 3,
            RecordData::Txt(_) => 4,
            RecordData::Ns(_) => 5,
            RecordData::Soa { .. } => 6,
        })
        .collect();
    // ANY renders every configured type in a fixed order, but no SOA:
    // SOA is synthesized only for a SOA query.
    assert_eq!(kinds, vec![0, 1, 2, 3, 4, 4, 5]);
    match &answers[3].data {
        RecordData::Mx(pref, exchange) => {
            assert_eq!(*pref, 10);
            assert_eq!(exchange, "mail.example.com.");
        }
        other => panic!("expected MX, got {:?}", other),
    }
}

#[test]
fn soa_query_at_origin_synthesizes_record_with_defaults() {
    let mut zone = zone_with_apex_a(&["192.0.2.1"]);
    zone.soa = Some(SOARecord {
        mname: "ns1.example.com.".to_string(),
        rname: "admin.example.com.".to_string(),
        refresh: None,
        retry: Some(1234),
        expire: None,
        minimum: None,
        serial: lazy_dns::config::generate_serial(1609459200),
    });
    let resolver = resolver_for(zone, UnconfiguredPolicy::NxDomain);
    let answers = resolver.resolve(&query("example.com", RecordType::Soa), loopback(), None);
    assert_eq!(answers.len(), 1);
    match &answers[0].data {
        RecordData::Soa { mname, rname, serial, refresh, retry, expire, minimum } => {
            assert_eq!(mname, "ns1.example.com.");
            assert_eq!(rname, "admin.example.com.");
            assert_eq!(*serial, 2021010100);
            assert_eq!(*refresh, 86400);
            assert_eq!(*retry, 1234);
            assert_eq!(*expire, 3600000);
            assert_eq!(*minimum, 300);
        }
        other => panic!("expected SOA, got {:?}", other),
    }
}

#[test]
fn soa_query_below_origin_synthesizes_nothing() {
    let mut zone = zone_with_apex_a(&["192.0.2.1"]);
    zone.soa = Some(SOARecord {
        mname: "ns1.example.com.".to_string(),
        rname: "admin.example.com.".to_string(),
        refresh: None,
        retry: None,
        expire: None,
        minimum: None,
        serial: 1,
    });
    zone.subdomains = vec![(
        "www".to_string(),
        Subdomain { records: zone_with_apex_a(&["192.0.2.2"]).apex, country: vec![] },
    )];
    let resolver = resolver_for(zone, UnconfiguredPolicy::NxDomain);
    let answers = resolver.resolve(&query("www.example.com", RecordType::Soa), loopback(), None);
    assert!(answers.is_empty());
}

#[test]
fn mx_with_invalid_exchange_is_dropped() {
    let long_label = format!("{}.com", "a".repeat(64));
    let mut zone = zone_with_apex_a(&[]);
    zone.apex.mx = vec![
        MXRecord { preference: 5, exchange: long_label },
        MXRecord { preference: 10, exchange: "mail.example.com.".to_string() },
    ];
    let resolver = resolver_for(zone, UnconfiguredPolicy::NxDomain);
    let answers = resolver.resolve(&query("example.com", RecordType::Mx), loopback(), None);
    assert_eq!(answers.len(), 1);
    assert_eq!(
        answers[0].data,
        RecordData::Mx(10, "mail.example.com.".to_string())
    );
}

#[test]
fn normalize_name_lowercases_and_trims_one_dot() {
    assert_eq!(lazy_dns::names::normalize_name("FoO.BaR."), "foo.bar");
    assert_eq!(lazy_dns::names::normalize_name("plain"), "plain");
    assert_eq!(lazy_dns::names::normalize_name("dots.."), "dots.");
    assert_eq!(lazy_dns::names::normalize_name(""), "");
}

#[test]
fn zone_ttl_overrides_default() {
    let mut zone = zone_with_apex_a(&["192.0.2.1"]);
    zone.ttl = Some(1);
    let resolver = resolver_for(zone, UnconfiguredPolicy::NxDomain);
    let answers = resolver.resolve(&query("example.com", RecordType::A), loopback(), None);
    assert_eq!(answers[0].ttl, 60);
}
