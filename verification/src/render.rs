//! Rendering of a selected record set into typed answer records.
//!
//! For the asked type (or all of them for `Any`) each configured entry is
//! parsed for its type and rendered; entries that do not parse are dropped
//! silently. Answers keep the order A, AAAA, CNAME, MX, TXT, NS, and within
//! one type the configuration order. A SOA record is appended only for a SOA
//! query, and only when the caller hands in the zone's SOA block.
use vstd::prelude::*;
use crate::answer::{DnsRecord, RecordData, RecordModel, RecordType};
use crate::ip::{ipv4_spec, ipv6_of, parse_ipv4, parse_ipv6};
use crate::records::{MXRecord, RecordSet, SOARecord};

verus! {

/// What the DNS library's domain-name parser accepts for a piece of text; a
/// function of the text alone.
pub uninterp spec fn name_ok(s: Seq<char>) -> bool;

/// Relies on `hickory_proto::rr::Name::from_str`: whether the text parses
/// as a domain name; the verdict depends on the text alone.
#[verifier::external_body]
pub fn name_valid(s: &str) -> (r: bool)
    ensures
        r == name_ok(s@),
{
    <hickory_proto::rr::Name as std::str::FromStr>::from_str(s).is_ok()
}

/// The A records rendered from the configured entries: one record per entry
/// that parses as a dotted quad, in order.
pub open spec fn a_records_spec(name: Seq<char>, ttl: u32, vals: Seq<String>) -> Seq<RecordModel>
    decreases vals.len(),
{
    if vals.len() == 0 {
        Seq::empty()
    } else {
        let init = a_records_spec(name, ttl, vals.drop_last());
        match ipv4_spec(vals.last()@) {
            Some(q) => init.push(RecordModel { name, ttl, data: RecordData::A(q) }),
            None => init,
        }
    }
}

/// The AAAA records rendered from the configured entries: one record per
/// entry the IPv6 parser accepts, in order.
pub open spec fn aaaa_records_spec(name: Seq<char>, ttl: u32, vals: Seq<String>) -> Seq<
    RecordModel,
>
    decreases vals.len(),
{
    if vals.len() == 0 {
        Seq::empty()
    } else {
        let init = aaaa_records_spec(name, ttl, vals.drop_last());
        match ipv6_of(vals.last()@) {
            Some(g) => init.push(RecordModel { name, ttl, data: RecordData::Aaaa(g) }),
            None => init,
        }
    }
}

/// The CNAME records rendered from the configured entries: one record per
/// entry that parses as a domain name, in order.
pub open spec fn cname_records_spec(name: Seq<char>, ttl: u32, vals: Seq<String>) -> Seq<
    RecordModel,
>
    decreases vals.len(),
{
    if vals.len() == 0 {
        Seq::empty()
    } else {
        let init = cname_records_spec(name, ttl, vals.drop_last());
        if name_ok(vals.last()@) {
            init.push(RecordModel { name, ttl, data: RecordData::Cname(vals.last()@) })
        } else {
            init
        }
    }
}

/// The NS records rendered from the configured entries: one record per entry
/// that parses as a domain name, in order.
pub open spec fn ns_records_spec(name: Seq<char>, ttl: u32, vals: Seq<String>) -> Seq<RecordModel>
    decreases vals.len(),
{
    if vals.len() == 0 {
        Seq::empty()
    } else {
        let init = ns_records_spec(name, ttl, vals.drop_last());
        if name_ok(vals.last()@) {
            init.push(RecordModel { name, ttl, data: RecordData::Ns(vals.last()@) })
        } else {
            init
        }
    }
}

/// The MX records rendered from the configured entries: one record per entry
/// whose exchange parses as a domain name, in order.
pub open spec fn mx_records_spec(name: Seq<char>, ttl: u32, vals: Seq<MXRecord>) -> Seq<
    RecordModel,
>
    decreases vals.len(),
{
    if vals.len() == 0 {
        Seq::empty()
    } else {
        let init = mx_records_spec(name, ttl, vals.drop_last());
        if name_ok(vals.last().exchange@) {
            init.push(
                RecordModel {
                    name,
                    ttl,
                    data: RecordData::Mx(vals.last().preference, vals.last().exchange@),
                },
            )
        } else {
            init
        }
    }
}

/// The TXT records rendered from the configured entries: one record per
/// configured string, unconditionally, in order.
pub open spec fn txt_records_spec(name: Seq<char>, ttl: u32, vals: Seq<String>) -> Seq<RecordModel>
    decreases vals.len(),
{
    if vals.len() == 0 {
        Seq::empty()
    } else {
        txt_records_spec(name, ttl, vals.drop_last()).push(
            RecordModel { name, ttl, data: RecordData::Txt(vals.last()@) },
        )
    }
}

/// The synthesized SOA record: configured fields, with the defaults
/// refresh 86400, retry 7200, expire 3600000 and minimum 300 where a field
/// is absent.
pub open spec fn soa_record_spec(name: Seq<char>, ttl: u32, soa: SOARecord) -> RecordModel {
    RecordModel {
        name,
        ttl,
        data: RecordData::Soa {
            mname: soa.mname@,
            rname: soa.rname@,
            serial: soa.serial,
            refresh: match soa.refresh {
                Some(v) => v,
                None => 86400,
            },
            retry: match soa.retry {
                Some(v) => v,
                None => 7200,
            },
            expire: match soa.expire {
                Some(v) => v,
                None => 3600000,
            },
            minimum: match soa.minimum {
                Some(v) => v,
                None => 300,
            },
        },
    }
}

/// The full ordered answer list for one query over one record set: the
/// requested types in the order A, AAAA, CNAME, MX, TXT, NS, then the
/// synthesized SOA for a SOA query when an SOA block is handed in.
pub open spec fn render_spec(
    name: Seq<char>,
    qtype: RecordType,
    ttl: u32,
    rs: RecordSet,
    soa: Option<SOARecord>,
) -> Seq<RecordModel> {
    (if qtype == RecordType::A || qtype == RecordType::Any {
        a_records_spec(name, ttl, rs.a@)
    } else {
        Seq::empty()
    }) + (if qtype == RecordType::Aaaa || qtype == RecordType::Any {
        aaaa_records_spec(name, ttl, rs.aaaa@)
    } else {
        Seq::empty()
    }) + (if qtype == RecordType::Cname || qtype == RecordType::Any {
        cname_records_spec(name, ttl, rs.cname@)
    } else {
        Seq::empty()
    }) + (if qtype == RecordType::Mx || qtype == RecordType::Any {
        mx_records_spec(name, ttl, rs.mx@)
    } else {
        Seq::empty()
    }) + (if qtype == RecordType::Txt || qtype == RecordType::Any {
        txt_records_spec(name, ttl, rs.txt@)
    } else {
        Seq::empty()
    }) + (if qtype == RecordType::Ns || qtype == RecordType::Any {
        ns_records_spec(name, ttl, rs.ns@)
    } else {
        Seq::empty()
    }) + (match soa {
        Some(s) => if qtype == RecordType::Soa {
            seq![soa_record_spec(name, ttl, s)]
        } else {
            Seq::empty()
        },
        None => Seq::empty(),
    })
}

proof fn lemma_a_fields(name: Seq<char>, ttl: u32, vals: Seq<String>)
    ensures
        forall|k: int|
            0 <= k < a_records_spec(name, ttl, vals).len() ==> {
                &&& (#[trigger] a_records_spec(name, ttl, vals)[k]).ttl == ttl
                &&& a_records_spec(name, ttl, vals)[k].name == name
                &&& !(a_records_spec(name, ttl, vals)[k].data is Soa)
            },
    decreases vals.len(),
{
    if vals.len() > 0 {
        lemma_a_fields(name, ttl, vals.drop_last());
    }
}

proof fn lemma_aaaa_fields(name: Seq<char>, ttl: u32, vals: Seq<String>)
    ensures
        forall|k: int|
            0 <= k < aaaa_records_spec(name, ttl, vals).len() ==> {
                &&& (#[trigger] aaaa_records_spec(name, ttl, vals)[k]).ttl == ttl
                &&& aaaa_records_spec(name, ttl, vals)[k].name == name
                &&& !(aaaa_records_spec(name, ttl, vals)[k].data is Soa)
            },
    decreases vals.len(),
{
    if vals.len() > 0 {
        lemma_aaaa_fields(name, ttl, vals.drop_last());
    }
}

proof fn lemma_cname_fields(name: Seq<char>, ttl: u32, vals: Seq<String>)
    ensures
        forall|k: int|
            0 <= k < cname_records_spec(name, ttl, vals).len() ==> {
                &&& (#[trigger] cname_records_spec(name, ttl, vals)[k]).ttl == ttl
                &&& cname_records_spec(name, ttl, vals)[k].name == name
                &&& !(cname_records_spec(name, ttl, vals)[k].data is Soa)
            },
    decreases vals.len(),
{
    if vals.len() > 0 {
        lemma_cname_fields(name, ttl, vals.drop_last());
    }
}

proof fn lemma_ns_fields(name: Seq<char>, ttl: u32, vals: Seq<String>)
    ensures
        forall|k: int|
            0 <= k < ns_records_spec(name, ttl, vals).len() ==> {
                &&& (#[trigger] ns_records_spec(name, ttl, vals)[k]).ttl == ttl
                &&& ns_records_spec(name, ttl, vals)[k].name == name
                &&& !(ns_records_spec(name, ttl, vals)[k].data is Soa)
            },
    decreases vals.len(),
{
    if vals.len() > 0 {
        lemma_ns_fields(name, ttl, vals.drop_last());
    }
}

proof fn lemma_mx_fields(name: Seq<char>, ttl: u32, vals: Seq<MXRecord>)
    ensures
        forall|k: int|
            0 <= k < mx_records_spec(name, ttl, vals).len() ==> {
                &&& (#[trigger] mx_records_spec(name, ttl, vals)[k]).ttl == ttl
                &&& mx_records_spec(name, ttl, vals)[k].name == name
                &&& !(mx_records_spec(name, ttl, vals)[k].data is Soa)
            },
    decreases vals.len(),
{
    if vals.len() > 0 {
        lemma_mx_fields(name, ttl, vals.drop_last());
    }
}

proof fn lemma_txt_fields(name: Seq<char>, ttl: u32, vals: Seq<String>)
    ensures
        forall|k: int|
            0 <= k < txt_records_spec(name, ttl, vals).len() ==> {
                &&& (#[trigger] txt_records_spec(name, ttl, vals)[k]).ttl == ttl
                &&& txt_records_spec(name, ttl, vals)[k].name == name
                &&& !(txt_records_spec(name, ttl, vals)[k].data is Soa)
            },
    decreases vals.len(),
{
    if vals.len() > 0 {
        lemma_txt_fields(name, ttl, vals.drop_last());
    }
}

/// Every rendered record carries the query name and the computed TTL, and
/// a SOA record appears only in answer to a SOA query with an SOA block at
/// hand.
pub proof fn lemma_render_uniform(
    name: Seq<char>,
    qtype: RecordType,
    ttl: u32,
    rs: RecordSet,
    soa: Option<SOARecord>,
)
    ensures
        forall|k: int|
            0 <= k < render_spec(name, qtype, ttl, rs, soa).len() ==> {
                &&& (#[trigger] render_spec(name, qtype, ttl, rs, soa)[k]).ttl == ttl
                &&& render_spec(name, qtype, ttl, rs, soa)[k].name == name
                &&& (render_spec(name, qtype, ttl, rs, soa)[k].data is Soa ==> qtype
                    == RecordType::Soa && soa is Some)
            },
{
    lemma_a_fields(name, ttl, rs.a@);
    lemma_aaaa_fields(name, ttl, rs.aaaa@);
    lemma_cname_fields(name, ttl, rs.cname@);
    lemma_mx_fields(name, ttl, rs.mx@);
    lemma_txt_fields(name, ttl, rs.txt@);
    lemma_ns_fields(name, ttl, rs.ns@);
}

/// Render the A entries of a record set.
pub fn create_a_records(name: &String, ttl: u32, values: &Vec<String>) -> (r: Vec<DnsRecord>)
    ensures
        r.deep_view() == a_records_spec(name@, ttl, values@),
{
    let mut out: Vec<DnsRecord> = Vec::new();
    let mut i: usize = 0;
    while i < values.len()
        invariant
            i <= values@.len(),
            out.deep_view() == a_records_spec(name@, ttl, values@.subrange(0, i as int)),
        decreases values@.len() - i,
    {
        proof {
            assert(values@.subrange(0, i + 1).drop_last() =~= values@.subrange(0, i as int));
            assert(values@.subrange(0, i + 1).last() == values@[i as int]);
        }
        match parse_ipv4(values[i].as_str()) {
            Some(q) => {
                out.push(DnsRecord { name: name.clone(), ttl, data: RecordData::A(q) });
                proof {
                    assert(out.deep_view() =~= a_records_spec(
                        name@,
                        ttl,
                        values@.subrange(0, i + 1),
                    ));
                }
            },
            None => {},
        }
        i += 1;
    }
    proof {
        assert(values@.subrange(0, values@.len() as int) =~= values@);
    }
    out
}

/// Render the AAAA entries of a record set.
pub fn create_aaaa_records(name: &String, ttl: u32, values: &Vec<String>) -> (r: Vec<DnsRecord>)
    ensures
        r.deep_view() == aaaa_records_spec(name@, ttl, values@),
{
    let mut out: Vec<DnsRecord> = Vec::new();
    let mut i: usize = 0;
    while i < values.len()
        invariant
            i <= values@.len(),
            out.deep_view() == aaaa_records_spec(name@, ttl, values@.subrange(0, i as int)),
        decreases values@.len() - i,
    {
        proof {
            assert(values@.subrange(0, i + 1).drop_last() =~= values@.subrange(0, i as int));
            assert(values@.subrange(0, i + 1).last() == values@[i as int]);
        }
        match parse_ipv6(values[i].as_str()) {
            Some(g) => {
                out.push(DnsRecord { name: name.clone(), ttl, data: RecordData::Aaaa(g) });
                proof {
                    assert(out.deep_view() =~= aaaa_records_spec(
                        name@,
                        ttl,
                        values@.subrange(0, i + 1),
                    ));
                }
            },
            None => {},
        }
        i += 1;
    }
    proof {
        assert(values@.subrange(0, values@.len() as int) =~= values@);
    }
    out
}

/// Render the CNAME entries of a record set.
pub fn create_cname_records(name: &String, ttl: u32, values: &Vec<String>) -> (r: Vec<DnsRecord>)
    ensures
        r.deep_view() == cname_records_spec(name@, ttl, values@),
{
    let mut out: Vec<DnsRecord> = Vec::new();
    let mut i: usize = 0;
    while i < values.len()
        invariant
            i <= values@.len(),
            out.deep_view() == cname_records_spec(name@, ttl, values@.subrange(0, i as int)),
        decreases values@.len() - i,
    {
        proof {
            assert(values@.subrange(0, i + 1).drop_last() =~= values@.subrange(0, i as int));
            assert(values@.subrange(0, i + 1).last() == values@[i as int]);
        }
        if name_valid(values[i].as_str()) {
            out.push(DnsRecord { name: name.clone(), ttl, data: RecordData::Cname(values[i].clone()) });
            proof {
                assert(out.deep_view() =~= cname_records_spec(
                    name@,
                    ttl,
                    values@.subrange(0, i + 1),
                ));
            }
        }
        i += 1;
    }
    proof {
        assert(values@.subrange(0, values@.len() as int) =~= values@);
    }
    out
}

/// Render the NS entries of a record set.
pub fn create_ns_records(name: &String, ttl: u32, values: &Vec<String>) -> (r: Vec<DnsRecord>)
    ensures
        r.deep_view() == ns_records_spec(name@, ttl, values@),
{
    let mut out: Vec<DnsRecord> = Vec::new();
    let mut i: usize = 0;
    while i < values.len()
        invariant
            i <= values@.len(),
            out.deep_view() == ns_records_spec(name@, ttl, values@.subrange(0, i as int)),
        decreases values@.len() - i,
    {
        proof {
            assert(values@.subrange(0, i + 1).drop_last() =~= values@.subrange(0, i as int));
            assert(values@.subrange(0, i + 1).last() == values@[i as int]);
        }
        if name_valid(values[i].as_str()) {
            out.push(DnsRecord { name: name.clone(), ttl, data: RecordData::Ns(values[i].clone()) });
            proof {
                assert(out.deep_view() =~= ns_records_spec(name@, ttl, values@.subrange(0, i + 1)));
            }
        }
        i += 1;
    }
    proof {
        assert(values@.subrange(0, values@.len() as int) =~= values@);
    }
    out
}

/// Render the MX entries of a record set.
pub fn create_mx_records(name: &String, ttl: u32, values: &Vec<MXRecord>) -> (r: Vec<DnsRecord>)
    ensures
        r.deep_view() == mx_records_spec(name@, ttl, values@),
{
    let mut out: Vec<DnsRecord> = Vec::new();
    let mut i: usize = 0;
    while i < values.len()
        invariant
            i <= values@.len(),
            out.deep_view() == mx_records_spec(name@, ttl, values@.subrange(0, i as int)),
        decreases values@.len() - i,
    {
        proof {
            assert(values@.subrange(0, i + 1).drop_last() =~= values@.subrange(0, i as int));
            assert(values@.subrange(0, i + 1).last() == values@[i as int]);
        }
        if name_valid(values[i].exchange.as_str()) {
            out.push(
                DnsRecord {
                    name: name.clone(),
                    ttl,
                    data: RecordData::Mx(values[i].preference, values[i].exchange.clone()),
                },
            );
            proof {
                assert(out.deep_view() =~= mx_records_spec(name@, ttl, values@.subrange(0, i + 1)));
            }
        }
        i += 1;
    }
    proof {
        assert(values@.subrange(0, values@.len() as int) =~= values@);
    }
    out
}

/// Render the TXT entries of a record set: one record per configured string.
pub fn create_txt_records(name: &String, ttl: u32, values: &Vec<String>) -> (r: Vec<DnsRecord>)
    ensures
        r.deep_view() == txt_records_spec(name@, ttl, values@),
{
    let mut out: Vec<DnsRecord> = Vec::new();
    let mut i: usize = 0;
    while i < values.len()
        invariant
            i <= values@.len(),
            out.deep_view() == txt_records_spec(name@, ttl, values@.subrange(0, i as int)),
        decreases values@.len() - i,
    {
        proof {
            assert(values@.subrange(0, i + 1).drop_last() =~= values@.subrange(0, i as int));
            assert(values@.subrange(0, i + 1).last() == values@[i as int]);
        }
        out.push(DnsRecord { name: name.clone(), ttl, data: RecordData::Txt(values[i].clone()) });
        proof {
            assert(out.deep_view() =~= txt_records_spec(name@, ttl, values@.subrange(0, i + 1)));
        }
        i += 1;
    }
    proof {
        assert(values@.subrange(0, values@.len() as int) =~= values@);
    }
    out
}

/// Synthesize the SOA record for a SOA query at the zone origin, if an SOA
/// block is configured.
pub fn create_soa_record(name: &String, ttl: u32, soa: Option<&SOARecord>) -> (r: Option<DnsRecord>)
    ensures
        match soa {
            Some(s) => r matches Some(rec) && rec@ == soa_record_spec(name@, ttl, *s),
            None => r is None,
        },
{
    match soa {
        Some(s) => Some(
            DnsRecord {
                name: name.clone(),
                ttl,
                data: RecordData::Soa {
                    mname: s.mname.clone(),
                    rname: s.rname.clone(),
                    serial: s.serial,
                    refresh: match s.refresh {
                        Some(v) => v,
                        None => 86400,
                    },
                    retry: match s.retry {
                        Some(v) => v,
                        None => 7200,
                    },
                    expire: match s.expire {
                        Some(v) => v,
                        None => 3600000,
                    },
                    minimum: match s.minimum {
                        Some(v) => v,
                        None => 300,
                    },
                },
            },
        ),
        None => None,
    }
}

/// Build the full ordered answer list for one query over one record set.
pub fn build_response_records(
    name: &String,
    qtype: RecordType,
    ttl: u32,
    records: &RecordSet,
    soa: Option<&SOARecord>,
) -> (r: Vec<DnsRecord>)
    ensures
        r.deep_view() == render_spec(
            name@,
            qtype,
            ttl,
            *records,
            match soa {
                Some(s) => Some(*s),
                None => None,
            },
        ),
{
    let mut out: Vec<DnsRecord> = Vec::new();
    if qtype == RecordType::A || qtype == RecordType::Any {
        let mut part = create_a_records(name, ttl, &records.a);
        out.append(&mut part);
    }
    let ghost g1 = out.deep_view();
    if qtype == RecordType::Aaaa || qtype == RecordType::Any {
        let mut part = create_aaaa_records(name, ttl, &records.aaaa);
        out.append(&mut part);
    }
    let ghost g2 = out.deep_view();
    if qtype == RecordType::Cname || qtype == RecordType::Any {
        let mut part = create_cname_records(name, ttl, &records.cname);
        out.append(&mut part);
    }
    let ghost g3 = out.deep_view();
    if qtype == RecordType::Mx || qtype == RecordType::Any {
        let mut part = create_mx_records(name, ttl, &records.mx);
        out.append(&mut part);
    }
    let ghost g4 = out.deep_view();
    if qtype == RecordType::Txt || qtype == RecordType::Any {
        let mut part = create_txt_records(name, ttl, &records.txt);
        out.append(&mut part);
    }
    let ghost g5 = out.deep_view();
    if qtype == RecordType::Ns || qtype == RecordType::Any {
        let mut part = create_ns_records(name, ttl, &records.ns);
        out.append(&mut part);
    }
    let ghost g6 = out.deep_view();
    if qtype == RecordType::Soa {
        match create_soa_record(name, ttl, soa) {
            Some(rec) => {
                out.push(rec);
            },
            None => {},
        }
    }
    proof {
        assert(out.deep_view() =~= render_spec(
            name@,
            qtype,
            ttl,
            *records,
            match soa {
                Some(s) => Some(*s),
                None => None,
            },
        ));
    }
    out
}

} // verus!
