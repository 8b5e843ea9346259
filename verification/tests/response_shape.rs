use lazy_dns::answer::{DnsQuery, DnsRecord, RecordData, RecordType};
use lazy_dns::config::UnconfiguredPolicy;
use lazy_dns::ip::Ipv4Quad;
use lazy_dns::response::{plan_response, DnsRequest, ResponseCode};

fn request_with(queries: Vec<DnsQuery>) -> DnsRequest {
    DnsRequest { id: 4660, message_is_query: true, opcode_is_query: true, queries }
}

fn a_query(name: &str) -> DnsQuery {
    DnsQuery { name: name.to_string(), qtype: RecordType::A }
}

fn one_answer() -> Vec<DnsRecord> {
    vec![DnsRecord {
        name: "example.com".to_string(),
        ttl: 300,
        data: RecordData::A(Ipv4Quad { a: 192, b: 0, c: 2, d: 1 }),
    }]
}

#[test]
fn answers_produce_noerror_with_id_and_question_echo() {
    let req = request_with(vec![a_query("example.com"), a_query("second.example.com")]);
    let plan = plan_response(req, UnconfiguredPolicy::Drop, one_answer()).unwrap();
    assert_eq!(plan.id, 4660);
    assert_eq!(plan.queries.len(), 2);
    assert_eq!(plan.queries[0].name, "example.com");
    assert_eq!(plan.queries[1].name, "second.example.com");
    assert!(plan.authoritative);
    assert_eq!(plan.rcode, ResponseCode::NoError);
    assert_eq!(plan.answers.len(), 1);
}

#[test]
fn empty_answers_under_drop_emit_nothing() {
    let req = request_with(vec![a_query("unknown.tld")]);
    assert!(plan_response(req, UnconfiguredPolicy::Drop, vec![]).is_none());
}

#[test]
fn empty_answers_under_refused_emit_refused() {
    let req = request_with(vec![a_query("unknown.tld")]);
    let plan = plan_response(req, UnconfiguredPolicy::Refused, vec![]).unwrap();
    assert_eq!(plan.rcode, ResponseCode::Refused);
    assert!(plan.answers.is_empty());
    assert!(plan.authoritative);
}

#[test]
fn empty_answers_under_nxdomain_emit_nxdomain() {
    let req = request_with(vec![a_query("unknown.tld")]);
    let plan = plan_response(req, UnconfiguredPolicy::NxDomain, vec![]).unwrap();
    assert_eq!(plan.rcode, ResponseCode::NxDomain);
    assert!(plan.answers.is_empty());
}

#[test]
fn empty_soa_answer_under_nxdomain_stays_noerror() {
    let req = request_with(vec![DnsQuery {
        name: "example.com".to_string(),
        qtype: RecordType::Soa,
    }]);
    let plan = plan_response(req, UnconfiguredPolicy::NxDomain, vec![]).unwrap();
    assert_eq!(plan.rcode, ResponseCode::NoError);
    assert!(plan.answers.is_empty());
}

#[test]
fn no_question_is_a_format_error() {
    let req = request_with(vec![]);
    let plan = plan_response(req, UnconfiguredPolicy::Drop, vec![]).unwrap();
    assert_eq!(plan.rcode, ResponseCode::FormErr);
    assert_eq!(plan.id, 4660);
    assert!(plan.queries.is_empty());
    assert!(plan.answers.is_empty());
    assert!(plan.authoritative);
}

#[test]
fn only_non_query_messages_are_ignored() {
    let mut req = request_with(vec![a_query("example.com")]);
    assert!(req.should_process());
    req.message_is_query = false;
    assert!(!req.should_process());
    req.message_is_query = true;
    req.opcode_is_query = false;
    assert!(!req.should_process());
}
