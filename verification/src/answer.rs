//! The plain values a DNS exchange is decided over: the query as name and
//! type, and the typed answer records the resolver produces.
//!
//! Records carry the query name exactly as it came off the wire (casing and
//! trailing dot preserved) together with the computed TTL in seconds.
use vstd::prelude::*;
use crate::ip::{Ipv4Quad, Ipv6Segments};

verus! {

/// The record types the resolver renders, plus `Any` and a stand-in for
/// every other type found on the wire.
#[derive(Debug, Clone, Copy, PartialEq, Eq, Structural)]
pub enum RecordType {
    A,
    Aaaa,
    Cname,
    Mx,
    Txt,
    Ns,
    Soa,
    Any,
    Unsupported,
}

/// The data of one answer record. The string-valued fields are generic so
/// that the same shape serves the executable records (`String`) and their
/// specification image (`Seq<char>`).
#[derive(Debug, Clone, PartialEq, Eq)]
pub enum RecordData<S> {
    A(Ipv4Quad),
    Aaaa(Ipv6Segments),
    Cname(S),
    Mx(u16, S),
    Txt(S),
    Ns(S),
    Soa { mname: S, rname: S, serial: u32, refresh: u32, retry: u32, expire: u32, minimum: u32 },
}

/// One answer record: the echoed query name, the TTL in seconds, and the
/// typed data.
#[derive(Debug, Clone, PartialEq, Eq)]
pub struct DnsRecord {
    pub name: String,
    pub ttl: u32,
    pub data: RecordData<String>,
}

/// The specification image of one answer record.
pub struct RecordModel {
    pub name: Seq<char>,
    pub ttl: u32,
    pub data: RecordData<Seq<char>>,
}

/// The specification image of record data: every string field as its
/// character sequence.
pub open spec fn data_view(d: RecordData<String>) -> RecordData<Seq<char>> {
    match d {
        RecordData::A(q) => RecordData::A(q),
        RecordData::Aaaa(s) => RecordData::Aaaa(s),
        RecordData::Cname(n) => RecordData::Cname(n@),
        RecordData::Mx(p, x) => RecordData::Mx(p, x@),
        RecordData::Txt(t) => RecordData::Txt(t@),
        RecordData::Ns(n) => RecordData::Ns(n@),
        RecordData::Soa { mname, rname, serial, refresh, retry, expire, minimum } => RecordData::Soa {
            mname: mname@,
            rname: rname@,
            serial,
            refresh,
            retry,
            expire,
            minimum,
        },
    }
}

impl View for DnsRecord {
    type V = RecordModel;

    open spec fn view(&self) -> RecordModel {
        RecordModel { name: self.name@, ttl: self.ttl, data: data_view(self.data) }
    }
}

impl DeepView for DnsRecord {
    type V = RecordModel;

    open spec fn deep_view(&self) -> RecordModel {
        self.view()
    }
}

/// One parsed question: the name as it stands on the wire and the asked
/// record type.
#[derive(Debug, Clone, PartialEq, Eq)]
pub struct DnsQuery {
    pub name: String,
    pub qtype: RecordType,
}

/// The specification image of one question.
pub struct QueryModel {
    pub name: Seq<char>,
    pub qtype: RecordType,
}

impl View for DnsQuery {
    type V = QueryModel;

    open spec fn view(&self) -> QueryModel {
        QueryModel { name: self.name@, qtype: self.qtype }
    }
}

impl DeepView for DnsQuery {
    type V = QueryModel;

    open spec fn deep_view(&self) -> QueryModel {
        self.view()
    }
}

} // verus!
