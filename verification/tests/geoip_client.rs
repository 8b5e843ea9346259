use lazy_dns::geoip::{
    extract_body, geoip_request, parse_lookup_response, reconnect_step, ReconnectEvent,
};

#[test]
fn request_line_for_an_address() {
    assert_eq!(
        geoip_request("1.2.3.4"),
        "GET /lookup/country?ip=1.2.3.4 HTTP/1.1\r\nHost: localhost\r\n\r\n"
    );
}

#[test]
fn body_is_split_at_first_separator_and_nuls_trimmed() {
    let raw = b"HTTP/1.1 200 OK\r\nContent-Type: application/json\r\n\r\nhello\0\0".to_vec();
    assert_eq!(extract_body(&raw), Some(b"hello".to_vec()));
    let no_sep = b"HTTP/1.1 200 OK".to_vec();
    assert_eq!(extract_body(&no_sep), None);
}

#[test]
fn lookup_response_yields_country_code() {
    let raw = b"HTTP/1.1 200 OK\r\nContent-Length: 31\r\n\r\n{\"country\":{\"iso_code\":\"US\"}}\0\0"
        .to_vec();
    assert_eq!(parse_lookup_response(&raw), Some("US".to_string()));
}

#[test]
fn lookup_response_without_separator_yields_nothing() {
    let raw = b"{\"country\":{\"iso_code\":\"US\"}}".to_vec();
    assert_eq!(parse_lookup_response(&raw), None);
}

#[test]
fn lookup_response_with_bad_body_yields_nothing() {
    let not_json = b"HTTP/1.1 200 OK\r\n\r\nnot json".to_vec();
    assert_eq!(parse_lookup_response(&not_json), None);
    let wrong_shape = b"HTTP/1.1 200 OK\r\n\r\n{\"country\":{}}".to_vec();
    assert_eq!(parse_lookup_response(&wrong_shape), None);
    let not_a_string = b"HTTP/1.1 200 OK\r\n\r\n{\"country\":{\"iso_code\":7}}".to_vec();
    assert_eq!(parse_lookup_response(&not_a_string), None);
}

#[test]
fn reconnect_transitions() {
    assert_eq!(reconnect_step(false, true), (true, ReconnectEvent::BecameAvailable));
    assert_eq!(reconnect_step(true, true), (true, ReconnectEvent::StillAvailable));
    assert_eq!(reconnect_step(true, false), (false, ReconnectEvent::BecameUnavailable));
    assert_eq!(reconnect_step(false, false), (false, ReconnectEvent::StillUnavailable));
}
