//! Source addresses and the textual address forms used in record lists.
//!
//! A, AAAA and source addresses are held as plain octets and 16-bit segments,
//! so that the loopback/private checks and the rendering of configured
//! entries are fully specified. The dotted-quad form of an IPv4 address is
//! parsed here and proved against its grammar; the far larger IPv6 textual
//! grammar is delegated to the address parser of the DNS library.
use vstd::prelude::*;

verus! {

/// The four octets of an IPv4 address.
#[derive(Debug, Clone, Copy, PartialEq, Eq, Structural)]
pub struct Ipv4Quad {
    pub a: u8,
    pub b: u8,
    pub c: u8,
    pub d: u8,
}

/// The eight 16-bit segments of an IPv6 address.
#[derive(Debug, Clone, Copy, PartialEq, Eq, Structural)]
pub struct Ipv6Segments {
    pub s0: u16,
    pub s1: u16,
    pub s2: u16,
    pub s3: u16,
    pub s4: u16,
    pub s5: u16,
    pub s6: u16,
    pub s7: u16,
}

/// A query's source address.
#[derive(Debug, Clone, Copy, PartialEq, Eq, Structural)]
pub enum IpAddress {
    V4(Ipv4Quad),
    V6(Ipv6Segments),
}

impl IpAddress {
    /// Loopback: 127.0.0.0/8 for IPv4, `::1` for IPv6.
    pub open spec fn is_loopback_spec(self) -> bool {
        match self {
            IpAddress::V4(q) => q.a == 127,
            IpAddress::V6(s) => s.s0 == 0 && s.s1 == 0 && s.s2 == 0 && s.s3 == 0 && s.s4 == 0
                && s.s5 == 0 && s.s6 == 0 && s.s7 == 1,
        }
    }

    /// The IPv4 ranges that never reach the country lookup: the private
    /// blocks 10/8, 172.16/12 and 192.168/16, and link-local 169.254/16.
    pub open spec fn is_private_v4_spec(self) -> bool {
        match self {
            IpAddress::V4(q) => q.a == 10 || (q.a == 172 && 16 <= q.b && q.b <= 31) || (q.a == 192
                && q.b == 168) || (q.a == 169 && q.b == 254),
            IpAddress::V6(_) => false,
        }
    }

    /// Whether geo selection is short-circuited for this source: loopback
    /// for both families, and the private/link-local IPv4 blocks.
    pub open spec fn geo_blocked_spec(self) -> bool {
        self.is_loopback_spec() || self.is_private_v4_spec()
    }

    /// Loopback test, both address families.
    pub fn is_loopback(&self) -> (r: bool)
        ensures
            r == self.is_loopback_spec(),
    {
        match self {
            IpAddress::V4(q) => q.a == 127,
            IpAddress::V6(s) => s.s0 == 0 && s.s1 == 0 && s.s2 == 0 && s.s3 == 0 && s.s4 == 0
                && s.s5 == 0 && s.s6 == 0 && s.s7 == 1,
        }
    }

    /// Whether geo selection is short-circuited for this source.
    pub fn geo_blocked(&self) -> (r: bool)
        ensures
            r == self.geo_blocked_spec(),
    {
        if self.is_loopback() {
            return true;
        }
        match self {
            IpAddress::V4(q) => q.a == 10 || (q.a == 172 && 16 <= q.b && q.b <= 31) || (q.a == 192
                && q.b == 168) || (q.a == 169 && q.b == 254),
            IpAddress::V6(_) => false,
        }
    }
}

/// A decimal digit.
pub open spec fn is_digit(c: char) -> bool {
    '0' <= c && c <= '9'
}

/// The value of one decimal digit.
pub open spec fn digit_val(c: char) -> int {
    c as int - '0' as int
}

/// The value of a decimal digit string, most significant first.
pub open spec fn dec_val(s: Seq<char>) -> int
    decreases s.len(),
{
    if s.len() == 0 {
        0
    } else {
        dec_val(s.drop_last()) * 10 + digit_val(s.last())
    }
}

/// Every character is a decimal digit.
pub open spec fn all_digits(s: Seq<char>) -> bool {
    forall|i: int| 0 <= i < s.len() ==> is_digit(s[i])
}

/// A valid dotted-quad part: one to three digits, no leading zero, value at
/// most 255.
pub open spec fn octet_text(s: Seq<char>) -> bool {
    &&& 1 <= s.len() <= 3
    &&& all_digits(s)
    &&& (s.len() > 1 ==> s[0] != '0')
    &&& dec_val(s) <= 255
}

/// The parts of `s` split at every dot. A string without dots is one part;
/// each dot separates two (possibly empty) parts.
pub open spec fn split_dots(s: Seq<char>) -> Seq<Seq<char>>
    decreases s.len(),
{
    if s.len() == 0 {
        seq![Seq::<char>::empty()]
    } else if s[0] == '.' {
        seq![Seq::<char>::empty()] + split_dots(s.drop_first())
    } else {
        let rest = split_dots(s.drop_first());
        seq![seq![s[0]] + rest[0]] + rest.drop_first()
    }
}

/// The dotted-quad reading of `s`: four dot-separated valid octets, or
/// nothing.
pub open spec fn ipv4_spec(s: Seq<char>) -> Option<Ipv4Quad> {
    let parts = split_dots(s);
    if parts.len() == 4 && octet_text(parts[0]) && octet_text(parts[1]) && octet_text(parts[2])
        && octet_text(parts[3]) {
        Some(
            Ipv4Quad {
                a: dec_val(parts[0]) as u8,
                b: dec_val(parts[1]) as u8,
                c: dec_val(parts[2]) as u8,
                d: dec_val(parts[3]) as u8,
            },
        )
    } else {
        None
    }
}

proof fn lemma_split_len_pos(s: Seq<char>)
    ensures
        split_dots(s).len() >= 1,
    decreases s.len(),
{
    if s.len() == 0 {
    } else if s[0] == '.' {
        lemma_split_len_pos(s.drop_first());
    } else {
        lemma_split_len_pos(s.drop_first());
    }
}

proof fn lemma_split_no_dot(s: Seq<char>)
    requires
        forall|j: int| 0 <= j < s.len() ==> s[j] != '.',
    ensures
        split_dots(s) == seq![s],
    decreases s.len(),
{
    if s.len() == 0 {
        assert(split_dots(s) =~~= seq![s]);
    } else {
        lemma_split_no_dot(s.drop_first());
        lemma_split_len_pos(s.drop_first());
        assert(seq![s[0]] + s.drop_first() =~= s);
        assert(split_dots(s) =~~= seq![s]);
    }
}

proof fn lemma_split_first_dot(s: Seq<char>, i: int)
    requires
        0 <= i < s.len(),
        s[i] == '.',
        forall|j: int| 0 <= j < i ==> s[j] != '.',
    ensures
        split_dots(s) == seq![s.subrange(0, i)] + split_dots(s.subrange(i + 1, s.len() as int)),
    decreases i,
{
    if i == 0 {
        assert(s.drop_first() =~= s.subrange(1, s.len() as int));
        assert(s.subrange(0, 0) =~= Seq::<char>::empty());
        assert(split_dots(s) =~~= seq![s.subrange(0, 0)] + split_dots(
            s.subrange(1, s.len() as int),
        ));
    } else {
        let t = s.drop_first();
        assert(t[i - 1] == '.');
        assert(forall|j: int| 0 <= j < i - 1 ==> t[j] != '.');
        lemma_split_first_dot(t, i - 1);
        lemma_split_len_pos(t.subrange(i, t.len() as int));
        let rest = split_dots(t);
        assert(rest[0] == t.subrange(0, i - 1));
        assert(seq![s[0]] + t.subrange(0, i - 1) =~= s.subrange(0, i));
        assert(t.subrange(i, t.len() as int) =~= s.subrange(i + 1, s.len() as int));
        assert(rest.drop_first() =~= split_dots(s.subrange(i + 1, s.len() as int)));
        assert(split_dots(s) =~~= seq![s.subrange(0, i)] + split_dots(
            s.subrange(i + 1, s.len() as int),
        ));
    }
}

/// Find the first dot at or after `from`.
fn next_dot(s: &str, from: usize) -> (r: Option<usize>)
    requires
        from <= s@.len(),
    ensures
        match r {
            Some(i) => from <= i < s@.len() && s@[i as int] == '.' && forall|j: int|
                from <= j < i ==> s@[j] != '.',
            None => forall|j: int| from <= j < s@.len() ==> s@[j] != '.',
        },
{
    let n = s.unicode_len();
    let mut i: usize = from;
    while i < n
        invariant
            from <= i <= n,
            n == s@.len(),
            forall|j: int| from <= j < i ==> s@[j] != '.',
        decreases n - i,
    {
        if s.get_char(i) == '.' {
            return Some(i);
        }
        i += 1;
    }
    None
}

/// Parse one dotted-quad part.
fn parse_octet(t: &str) -> (r: Option<u8>)
    ensures
        match r {
            Some(v) => octet_text(t@) && v as int == dec_val(t@),
            None => !octet_text(t@),
        },
{
    let n = t.unicode_len();
    if n == 0 || n > 3 {
        return None;
    }
    if n > 1 && t.get_char(0) == '0' {
        return None;
    }
    let mut acc: u32 = 0;
    let mut i: usize = 0;
    while i < n
        invariant
            i <= n,
            n == t@.len(),
            n <= 3,
            acc as int == dec_val(t@.subrange(0, i as int)),
            i == 0 ==> acc == 0,
            i == 1 ==> acc <= 9,
            i == 2 ==> acc <= 99,
            i == 3 ==> acc <= 999,
            forall|j: int| 0 <= j < i ==> is_digit(t@[j]),
        decreases n - i,
    {
        let c = t.get_char(i);
        let u = c as u32;
        if u < 48 || u > 57 {
            proof {
                assert(!is_digit(t@[i as int]));
            }
            return None;
        }
        proof {
            assert(t@.subrange(0, i + 1).drop_last() =~= t@.subrange(0, i as int));
            assert(t@.subrange(0, i + 1).last() == t@[i as int]);
        }
        acc = acc * 10 + (u - 48);
        i += 1;
    }
    proof {
        assert(t@.subrange(0, n as int) =~= t@);
    }
    if acc > 255 {
        return None;
    }
    Some(acc as u8)
}

/// Parse a dotted-quad IPv4 address; anything that is not exactly four valid
/// octets yields nothing.
pub fn parse_ipv4(s: &str) -> (r: Option<Ipv4Quad>)
    ensures
        r == ipv4_spec(s@),
{
    let n = s.unicode_len();
    let d0 = match next_dot(s, 0) {
        Some(d) => d,
        None => {
            proof {
                lemma_split_no_dot(s@);
            }
            return None;
        },
    };
    proof {
        lemma_split_first_dot(s@, d0 as int);
    }
    let ghost tail1 = s@.subrange(d0 + 1, n as int);
    let d1 = match next_dot(s, d0 + 1) {
        Some(d) => d,
        None => {
            proof {
                assert(forall|j: int| 0 <= j < tail1.len() ==> tail1[j] != '.');
                lemma_split_no_dot(tail1);
            }
            return None;
        },
    };
    proof {
        assert(tail1[d1 - d0 - 1] == '.');
        assert(forall|j: int| 0 <= j < d1 - d0 - 1 ==> tail1[j] != '.');
        lemma_split_first_dot(tail1, d1 - d0 - 1);
        assert(tail1.subrange(0, d1 - d0 - 1) =~= s@.subrange(d0 + 1, d1 as int));
        assert(tail1.subrange(d1 - d0 - 1 + 1, tail1.len() as int) =~= s@.subrange(
            d1 + 1,
            n as int,
        ));
    }
    let ghost tail2 = s@.subrange(d1 + 1, n as int);
    let d2 = match next_dot(s, d1 + 1) {
        Some(d) => d,
        None => {
            proof {
                assert(forall|j: int| 0 <= j < tail2.len() ==> tail2[j] != '.');
                lemma_split_no_dot(tail2);
            }
            return None;
        },
    };
    proof {
        assert(tail2[d2 - d1 - 1] == '.');
        assert(forall|j: int| 0 <= j < d2 - d1 - 1 ==> tail2[j] != '.');
        lemma_split_first_dot(tail2, d2 - d1 - 1);
        assert(tail2.subrange(0, d2 - d1 - 1) =~= s@.subrange(d1 + 1, d2 as int));
        assert(tail2.subrange(d2 - d1 - 1 + 1, tail2.len() as int) =~= s@.subrange(
            d2 + 1,
            n as int,
        ));
    }
    let ghost tail3 = s@.subrange(d2 + 1, n as int);
    match next_dot(s, d2 + 1) {
        Some(d3) => {
            proof {
                assert(tail3[d3 - d2 - 1] == '.');
                assert(forall|j: int| 0 <= j < d3 - d2 - 1 ==> tail3[j] != '.');
                lemma_split_first_dot(tail3, d3 - d2 - 1);
                lemma_split_len_pos(tail3.subrange(d3 - d2 - 1 + 1, tail3.len() as int));
                assert(split_dots(s@).len() >= 5);
            }
            return None;
        },
        None => {
            proof {
                assert(forall|j: int| 0 <= j < tail3.len() ==> tail3[j] != '.');
                lemma_split_no_dot(tail3);
                assert(split_dots(s@) =~~= seq![
                    s@.subrange(0, d0 as int),
                    s@.subrange(d0 + 1, d1 as int),
                    s@.subrange(d1 + 1, d2 as int),
                    s@.subrange(d2 + 1, n as int),
                ]);
            }
        },
    }
    let p0 = s.substring_char(0, d0);
    let p1 = s.substring_char(d0 + 1, d1);
    let p2 = s.substring_char(d1 + 1, d2);
    let p3 = s.substring_char(d2 + 1, n);
    let a = match parse_octet(p0) {
        Some(v) => v,
        None => {
            return None;
        },
    };
    let b = match parse_octet(p1) {
        Some(v) => v,
        None => {
            return None;
        },
    };
    let c = match parse_octet(p2) {
        Some(v) => v,
        None => {
            return None;
        },
    };
    let d = match parse_octet(p3) {
        Some(v) => v,
        None => {
            return None;
        },
    };
    Some(Ipv4Quad { a, b, c, d })
}

/// What the DNS library's IPv6 address parser accepts for a piece of text,
/// and the segments it reads from it; a function of the text alone.
pub uninterp spec fn ipv6_of(s: Seq<char>) -> Option<Ipv6Segments>;

/// Relies on `hickory_proto::rr::rdata::AAAA::from_str` (the standard IPv6
/// textual grammar): parses the text into eight segments, or fails; the
/// result depends on the text alone.
#[verifier::external_body]
pub fn parse_ipv6(s: &str) -> (r: Option<Ipv6Segments>)
    ensures
        r == ipv6_of(s@),
{
    match <hickory_proto::rr::rdata::AAAA as std::str::FromStr>::from_str(s) {
        Ok(addr) => {
            let g = addr.segments();
            Some(
                Ipv6Segments {
                    s0: g[0], s1: g[1], s2: g[2], s3: g[3],
                    s4: g[4], s5: g[5], s6: g[6], s7: g[7],
                },
            )
        },
        Err(_) => None,
    }
}

} // verus!
