//! The configured shape of one zone: record sets, per-country overrides,
//! subdomains, and the optional SOA block.
//!
//! Country maps and subdomain maps are kept as association lists in
//! configuration order; lookup takes the first entry whose key equals the
//! sought one.
use vstd::prelude::*;
use crate::names::str_eq;

verus! {

/// The optional SOA block of a zone. `serial` is not configured by hand; it
/// is derived from the zone file's modification time at load.
#[derive(Debug, Clone, PartialEq, Eq)]
pub struct SOARecord {
    pub mname: String,
    pub rname: String,
    pub refresh: Option<u32>,
    pub retry: Option<u32>,
    pub expire: Option<u32>,
    pub minimum: Option<u32>,
    pub serial: u32,
}

/// One configured MX entry.
#[derive(Debug, Clone, PartialEq, Eq)]
pub struct MXRecord {
    pub preference: u16,
    pub exchange: String,
}

/// The record lists configured at one name, in configuration order. Entries
/// are not validated here; an entry that does not parse for its type is
/// dropped when answers are rendered.
#[derive(Debug, Clone, PartialEq, Eq)]
pub struct RecordSet {
    pub a: Vec<String>,
    pub aaaa: Vec<String>,
    pub cname: Vec<String>,
    pub mx: Vec<MXRecord>,
    pub txt: Vec<String>,
    pub ns: Vec<String>,
}

/// One configured subdomain: its records and its per-country overrides.
#[derive(Debug, Clone, PartialEq, Eq)]
pub struct Subdomain {
    pub records: RecordSet,
    pub country: Vec<(String, RecordSet)>,
}

/// One zone: optional TTL (minutes), optional SOA, the apex record set with
/// its country overrides, and the configured subdomains.
#[derive(Debug, Clone, PartialEq, Eq)]
pub struct ZoneConfig {
    pub ttl: Option<u32>,
    pub soa: Option<SOARecord>,
    pub apex: RecordSet,
    pub country: Vec<(String, RecordSet)>,
    pub subdomains: Vec<(String, Subdomain)>,
}

impl RecordSet {
    /// An empty record set: no entries of any type.
    pub open spec fn is_empty_spec(&self) -> bool {
        self.a@.len() == 0 && self.aaaa@.len() == 0 && self.cname@.len() == 0 && self.mx@.len()
            == 0 && self.txt@.len() == 0 && self.ns@.len() == 0
    }
}

impl Default for RecordSet {
    /// The record set with no entries of any type.
    fn default() -> (r: RecordSet)
        ensures
            r.is_empty_spec(),
    {
        RecordSet {
            a: Vec::new(),
            aaaa: Vec::new(),
            cname: Vec::new(),
            mx: Vec::new(),
            txt: Vec::new(),
            ns: Vec::new(),
        }
    }
}

impl ZoneConfig {
    /// Set the derived serial on the SOA block, if one is configured.
    pub fn set_serial(&mut self, serial: u32)
        ensures
            final(self).ttl == old(self).ttl,
            final(self).apex == old(self).apex,
            final(self).country == old(self).country,
            final(self).subdomains == old(self).subdomains,
            old(self).soa is None ==> final(self).soa is None,
            old(self).soa matches Some(s) ==> final(self).soa == Some(
                SOARecord { serial, ..s },
            ),
    {
        match &mut self.soa {
            Some(soa) => {
                soa.serial = serial;
            },
            None => {},
        }
    }
}

/// The index of the first entry whose key reads `key`, searching from
/// position `i`.
pub open spec fn assoc_idx_from<T>(entries: Seq<(String, T)>, key: Seq<char>, i: int) -> Option<
    int,
>
    decreases entries.len() - i,
{
    if i < 0 || i >= entries.len() {
        None
    } else if entries[i].0@ == key {
        Some(i)
    } else {
        assoc_idx_from(entries, key, i + 1)
    }
}

/// The index of the first entry whose key reads `key`.
pub open spec fn assoc_idx<T>(entries: Seq<(String, T)>, key: Seq<char>) -> Option<int> {
    assoc_idx_from(entries, key, 0)
}

/// Find the first entry whose key equals `key`.
pub fn assoc_find<T>(entries: &Vec<(String, T)>, key: &str) -> (r: Option<usize>)
    ensures
        match r {
            Some(i) => i < entries@.len() && assoc_idx(entries@, key@) == Some(i as int),
            None => assoc_idx(entries@, key@) is None,
        },
{
    let n = entries.len();
    let mut i: usize = 0;
    while i < n
        invariant
            i <= n,
            n == entries@.len(),
            assoc_idx(entries@, key@) == assoc_idx_from(entries@, key@, i as int),
        decreases n - i,
    {
        if str_eq(entries[i].0.as_str(), key) {
            return Some(i);
        }
        i += 1;
    }
    None
}

} // verus!
