//! Response shaping: what a request gets back, given the resolver's
//! answers and the process policy.
//!
//! Every response echoes the request's header ID and question section and
//! is authoritative. A request with no question is a format error; an empty
//! answer is shaped by the policy — dropped, refused, or reported as a
//! non-existent name, except that an empty SOA answer stays `NoError` to
//! signal "no data".
use vstd::prelude::*;
use crate::answer::{DnsQuery, DnsRecord, RecordType};
use crate::config::UnconfiguredPolicy;

verus! {

/// The response codes this server emits.
#[derive(Debug, Clone, Copy, PartialEq, Eq, Structural)]
pub enum ResponseCode {
    NoError,
    FormErr,
    NxDomain,
    Refused,
}

/// One decoded request, reduced to what shaping decides on: the header ID,
/// whether it is a query message with the query opcode, and its question
/// section.
#[derive(Debug, Clone, PartialEq, Eq)]
pub struct DnsRequest {
    pub id: u16,
    pub message_is_query: bool,
    pub opcode_is_query: bool,
    pub queries: Vec<DnsQuery>,
}

impl DnsRequest {
    /// Only query messages with the query opcode are processed; everything
    /// else is ignored without a response.
    pub fn should_process(&self) -> (r: bool)
        ensures
            r == (self.message_is_query && self.opcode_is_query),
    {
        self.message_is_query && self.opcode_is_query
    }
}

/// One planned response: the echoed header ID and question section, the
/// authoritative flag, the response code, and the attached answers.
#[derive(Debug, Clone, PartialEq, Eq)]
pub struct ResponsePlan {
    pub id: u16,
    pub queries: Vec<DnsQuery>,
    pub authoritative: bool,
    pub rcode: ResponseCode,
    pub answers: Vec<DnsRecord>,
}

/// The response code owed to a processed question: `NoError` with answers
/// attached where any exist; otherwise what the policy dictates, except
/// that an empty SOA answer under `NxDomain` stays `NoError`. `None` means
/// no response is emitted at all.
pub open spec fn shape_spec(
    policy: UnconfiguredPolicy,
    qtype: RecordType,
    has_answers: bool,
) -> Option<ResponseCode> {
    if has_answers {
        Some(ResponseCode::NoError)
    } else {
        match policy {
            UnconfiguredPolicy::Drop => None,
            UnconfiguredPolicy::Refused => Some(ResponseCode::Refused),
            UnconfiguredPolicy::NxDomain => if qtype == RecordType::Soa {
                Some(ResponseCode::NoError)
            } else {
                Some(ResponseCode::NxDomain)
            },
        }
    }
}

/// Shape the response for one processed request, given the resolver's
/// answers for its first question. A request without a question is
/// answered `FormErr`; an empty answer list is shaped by the policy; any
/// emitted response echoes the request's ID and question section and is
/// authoritative.
pub fn plan_response(
    req: DnsRequest,
    policy: UnconfiguredPolicy,
    answers: Vec<DnsRecord>,
) -> (r: Option<ResponsePlan>)
    requires
        req.message_is_query,
        req.opcode_is_query,
    ensures
        (r matches Some(p) ==> p.id == req.id && p.queries.deep_view()
            == req.queries.deep_view()),
        (r matches Some(p) ==> p.authoritative),
        req.queries@.len() == 0 ==> (r matches Some(p) && p.rcode == ResponseCode::FormErr
            && p.answers@.len() == 0),
        req.queries@.len() > 0 ==> (match shape_spec(
            policy,
            req.queries@[0].qtype,
            answers@.len() > 0,
        ) {
            Some(code) => r matches Some(p) && p.rcode == code && (if answers@.len() > 0 {
                p.answers.deep_view() == answers.deep_view()
            } else {
                p.answers@.len() == 0
            }),
            None => r is None,
        }),
{
    let id = req.id;
    let queries = req.queries;
    if queries.len() == 0 {
        return Some(
            ResponsePlan {
                id,
                queries,
                authoritative: true,
                rcode: ResponseCode::FormErr,
                answers: Vec::new(),
            },
        );
    }
    if answers.len() > 0 {
        return Some(
            ResponsePlan { id, queries, authoritative: true, rcode: ResponseCode::NoError, answers },
        );
    }
    match policy {
        UnconfiguredPolicy::Drop => None,
        UnconfiguredPolicy::Refused => Some(
            ResponsePlan {
                id,
                queries,
                authoritative: true,
                rcode: ResponseCode::Refused,
                answers,
            },
        ),
        UnconfiguredPolicy::NxDomain => {
            let code = if queries[0].qtype == RecordType::Soa {
                ResponseCode::NoError
            } else {
                ResponseCode::NxDomain
            };
            Some(ResponsePlan { id, queries, authoritative: true, rcode: code, answers })
        },
    }
}

} // verus!
