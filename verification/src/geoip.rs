//! The decisions and data of the country-lookup client.
//!
//! The connection itself — a local socket the lookup daemon listens on —
//! is outside work; what stands here is everything decidable over plain
//! values: the request line sent for an address, the splitting of the raw
//! response into headers and body, the reading of the body's JSON, and the
//! availability-flag transition the periodic probe applies.
use vstd::prelude::*;
use vstd::string::StringExecFns;

verus! {

/// What one availability probe did to the flag.
#[derive(Debug, Clone, Copy, PartialEq, Eq, Structural)]
pub enum ReconnectEvent {
    BecameAvailable,
    BecameUnavailable,
    StillAvailable,
    StillUnavailable,
}

/// The availability transition of one probe: the flag becomes the probe's
/// verdict, and the event names the edge taken.
pub fn reconnect_step(was_available: bool, probe_ok: bool) -> (r: (bool, ReconnectEvent))
    ensures
        r.0 == probe_ok,
        r.1 == (if probe_ok && !was_available {
            ReconnectEvent::BecameAvailable
        } else if probe_ok {
            ReconnectEvent::StillAvailable
        } else if was_available {
            ReconnectEvent::BecameUnavailable
        } else {
            ReconnectEvent::StillUnavailable
        }),
{
    if probe_ok {
        if !was_available {
            (true, ReconnectEvent::BecameAvailable)
        } else {
            (true, ReconnectEvent::StillAvailable)
        }
    } else {
        if was_available {
            (false, ReconnectEvent::BecameUnavailable)
        } else {
            (false, ReconnectEvent::StillUnavailable)
        }
    }
}

/// The request line sent to the lookup daemon for one address text.
pub open spec fn geoip_request_spec(ip: Seq<char>) -> Seq<char> {
    "GET /lookup/country?ip="@ + ip + " HTTP/1.1\r\nHost: localhost\r\n\r\n"@
}

/// Build the lookup request line for one address text.
pub fn geoip_request(ip_text: &str) -> (r: String)
    ensures
        r@ == geoip_request_spec(ip_text@),
{
    let mut s = String::from_str("GET /lookup/country?ip=");
    s.append(ip_text);
    s.append(" HTTP/1.1\r\nHost: localhost\r\n\r\n");
    s
}

/// An HTTP header/body separator (CR LF CR LF) standing at position `i`.
pub open spec fn sep_at(s: Seq<u8>, i: int) -> bool {
    &&& i + 4 <= s.len()
    &&& s[i] == 13
    &&& s[i + 1] == 10
    &&& s[i + 2] == 13
    &&& s[i + 3] == 10
}

/// The first separator position at or after `i`.
pub open spec fn find_sep_from(s: Seq<u8>, i: int) -> Option<int>
    decreases s.len() - i,
{
    if i < 0 || i + 4 > s.len() {
        None
    } else if sep_at(s, i) {
        Some(i)
    } else {
        find_sep_from(s, i + 1)
    }
}

/// The bytes with every trailing NUL removed.
pub open spec fn trim_nuls(s: Seq<u8>) -> Seq<u8>
    decreases s.len(),
{
    if s.len() > 0 && s.last() == 0 {
        trim_nuls(s.drop_last())
    } else {
        s
    }
}

/// The body of a raw daemon response: everything after the first header
/// separator, trailing NULs removed; nothing if no separator stands in it.
pub open spec fn http_body_spec(raw: Seq<u8>) -> Option<Seq<u8>> {
    match find_sep_from(raw, 0) {
        Some(i) => Some(trim_nuls(raw.subrange(i + 4, raw.len() as int))),
        None => None,
    }
}

/// Find the first header separator of a raw response.
fn find_sep(raw: &Vec<u8>) -> (r: Option<usize>)
    ensures
        match r {
            Some(i) => i + 4 <= raw@.len() && find_sep_from(raw@, 0) == Some(i as int),
            None => find_sep_from(raw@, 0) is None,
        },
{
    let n = raw.len();
    if n < 4 {
        return None;
    }
    let mut i: usize = 0;
    while i <= n - 4
        invariant
            4 <= n,
            i <= n - 3,
            n == raw@.len(),
            find_sep_from(raw@, 0) == find_sep_from(raw@, i as int),
        decreases n - i,
    {
        if raw[i] == 13 && raw[i + 1] == 10 && raw[i + 2] == 13 && raw[i + 3] == 10 {
            return Some(i);
        }
        i += 1;
    }
    None
}

/// Split a raw daemon response at the first header separator and trim the
/// body's trailing NULs.
pub fn extract_body(raw: &Vec<u8>) -> (r: Option<Vec<u8>>)
    ensures
        match r {
            Some(b) => http_body_spec(raw@) == Some(b@),
            None => http_body_spec(raw@) is None,
        },
{
    let n = raw.len();
    let sep = match find_sep(raw) {
        Some(i) => i,
        None => {
            return None;
        },
    };
    let mut body: Vec<u8> = Vec::new();
    let mut j: usize = sep + 4;
    while j < n
        invariant
            sep + 4 <= j <= n,
            n == raw@.len(),
            body@ == raw@.subrange(sep + 4, j as int),
        decreases n - j,
    {
        body.push(raw[j]);
        proof {
            assert(body@ =~= raw@.subrange(sep + 4, j + 1));
        }
        j += 1;
    }
    proof {
        assert(body@ =~= raw@.subrange(sep + 4, n as int));
    }
    while body.len() > 0 && body[body.len() - 1] == 0
        invariant
            trim_nuls(body@) == trim_nuls(raw@.subrange(sep + 4, raw@.len() as int)),
        decreases body@.len(),
    {
        body.pop();
    }
    Some(body)
}

/// The `country.iso_code` text that the JSON reader finds in a body of
/// the shape `{"country":{"iso_code":...}}`, or nothing where the body is
/// not such an object; a function of the body bytes alone.
pub uninterp spec fn iso_code_of(body: Seq<u8>) -> Option<Seq<char>>;

/// Relies on `serde_json::from_slice::<Value>`, `Value::get` and
/// `Value::as_str`: reads the body as a JSON object and hands out the
/// string under `country.iso_code`, or nothing where any step finds
/// another shape. The verdict and the text depend on the body alone.
#[verifier::external_body]
fn json_country_iso(body: &Vec<u8>) -> (r: Option<String>)
    ensures
        match r {
            Some(s) => iso_code_of(body@) == Some(s@),
            None => iso_code_of(body@) is None,
        },
{
    let v: serde_json::Value = serde_json::from_slice(body.as_slice()).ok()?;
    Some(v.get("country")?.get("iso_code")?.as_str()?.to_string())
}

/// The country code one raw daemon reply carries: the `country.iso_code`
/// of its body's JSON, where the reply has a header separator and its
/// NUL-trimmed body is JSON of that shape; nothing otherwise.
pub open spec fn lookup_country_spec(raw: Seq<u8>) -> Option<Seq<char>> {
    match http_body_spec(raw) {
        Some(b) => iso_code_of(b),
        None => None,
    }
}

/// Read the country code out of one raw daemon reply: the body after the
/// first header separator, trailing NULs removed, read as a JSON object of
/// the shape `{"country":{"iso_code":...}}`. A reply without a separator
/// yields nothing, as does a body that is not JSON of that shape.
pub fn parse_lookup_response(raw: &Vec<u8>) -> (r: Option<String>)
    ensures
        match r {
            Some(s) => lookup_country_spec(raw@) == Some(s@),
            None => lookup_country_spec(raw@) is None,
        },
{
    let body = match extract_body(raw) {
        Some(b) => b,
        None => {
            return None;
        },
    };
    json_country_iso(&body)
}

} // verus!
