//! The resolver: from a parsed query and the record store to a response and
//! its response code.

use crate::addr::Ipv4Addr;
use crate::packet::{
    build_response_with_code, response_bytes, response_code_spec, response_header, u16_be,
    wire_name, DnsQuery, DnsQueryView,
};
use crate::record::{DnsRecord, RecordView};
use crate::store::{same_key, DnsRecords};
use crate::text::text_eq;
use vstd::prelude::*;

verus! {

/// Response code of an answered query.
pub const RCODE_NOERROR: u8 = 0;

/// Response code of a query without a question.
pub const RCODE_FORMERR: u8 = 1;

/// Response code of a query for which no record answers.
pub const RCODE_NXDOMAIN: u8 = 3;

/// The TTL of a response without an answer.
pub const NEGATIVE_TTL: u32 = 60;

/// The record type that a query type asks for, where it is one that the
/// store knows.
pub open spec fn asked_type(qtype: u16) -> Option<Seq<char>> {
    if qtype == 1 {
        Some("A"@)
    } else if qtype == 2 {
        Some("NS"@)
    } else if qtype == 5 {
        Some("CNAME"@)
    } else if qtype == 6 {
        Some("SOA"@)
    } else if qtype == 12 {
        Some("PTR"@)
    } else if qtype == 15 {
        Some("MX"@)
    } else if qtype == 16 {
        Some("TXT"@)
    } else if qtype == 28 {
        Some("AAAA"@)
    } else if qtype == 33 {
        Some("SRV"@)
    } else {
        None
    }
}

/// The record answers for the name and the query type. Names are matched
/// exactly, character by character.
pub open spec fn answers(r: RecordView, name: Seq<char>, qtype: u16) -> bool {
    r.name == name && asked_type(qtype) == Some(r.record_type)
}

/// The first record of the listing that answers for the name and the query
/// type. In a well-formed store at most one record does.
pub open spec fn resolve_spec(s: Seq<RecordView>, name: Seq<char>, qtype: u16) -> Option<RecordView>
    decreases s.len(),
{
    if s.len() == 0 {
        None
    } else if answers(s[0], name, qtype) {
        Some(s[0])
    } else {
        resolve_spec(s.drop_first(), name, qtype)
    }
}

/// What is answered: an address, a response code and a TTL.
pub struct Answer {
    pub ip: Ipv4Addr,
    pub response_code: u8,
    pub ttl: u32,
}

/// The address of a response without an answer.
pub open spec fn no_address() -> Ipv4Addr {
    Ipv4Addr { a: 0, b: 0, c: 0, d: 0 }
}

/// The answer to a query: a format error for a query without a question;
/// the address and TTL of the A record that answers for the name of the
/// first question; a name error where no A record does.
pub open spec fn answer_spec(s: Seq<RecordView>, query: DnsQueryView) -> Answer {
    if query.questions.len() == 0 {
        Answer { ip: no_address(), response_code: RCODE_FORMERR, ttl: NEGATIVE_TTL }
    } else {
        match resolve_spec(s, query.questions[0].name, query.questions[0].qtype) {
            Some(r) => if r.record_type == "A"@ {
                Answer {
                    ip: match r.ip {
                        Some(ip) => ip,
                        None => no_address(),
                    },
                    response_code: RCODE_NOERROR,
                    ttl: r.ttl,
                }
            } else {
                Answer { ip: no_address(), response_code: RCODE_NXDOMAIN, ttl: NEGATIVE_TTL }
            },
            None => Answer { ip: no_address(), response_code: RCODE_NXDOMAIN, ttl: NEGATIVE_TTL },
        }
    }
}

/// The record type that a query type asks for.
pub fn record_type_of(qtype: u16) -> (name: Option<&'static str>)
    ensures
        match name {
            Some(t) => asked_type(qtype) == Some(t@),
            None => asked_type(qtype) is None,
        },
{
    if qtype == 1 {
        Some("A")
    } else if qtype == 2 {
        Some("NS")
    } else if qtype == 5 {
        Some("CNAME")
    } else if qtype == 6 {
        Some("SOA")
    } else if qtype == 12 {
        Some("PTR")
    } else if qtype == 15 {
        Some("MX")
    } else if qtype == 16 {
        Some("TXT")
    } else if qtype == 28 {
        Some("AAAA")
    } else if qtype == 33 {
        Some("SRV")
    } else {
        None
    }
}

/// The record that answers for the name and the query type.
pub fn resolve(records: &DnsRecords, name: &str, qtype: u16) -> (found: Option<DnsRecord>)
    ensures
        match found {
            Some(r) => resolve_spec(records@, name@, qtype) == Some(r@),
            None => resolve_spec(records@, name@, qtype) is None,
        },
{
    let wanted = match record_type_of(qtype) {
        Some(t) => t,
        None => {
            proof {
                lemma_no_type_no_record(records@, name@, qtype);
            }
            return None;
        },
    };
    let mut i: usize = 0;
    proof {
        assert(records@.skip(0) =~= records@);
    }
    while i < records.len()
        invariant
            i <= records@.len(),
            asked_type(qtype) == Some(wanted@),
            resolve_spec(records@, name@, qtype) == resolve_spec(
                records@.skip(i as int),
                name@,
                qtype,
            ),
        decreases records@.len() - i,
    {
        let record = records.record_at(i);
        proof {
            assert(records@.skip(i as int)[0] == records@[i as int]);
            assert(records@.skip(i as int).drop_first() =~= records@.skip(i + 1));
        }
        if text_eq(record.name.as_str(), name) && text_eq(record.record_type.as_str(), wanted) {
            return Some(record.clone());
        }
        i += 1;
    }
    None
}

/// A query type that asks for no known record type finds no record.
pub proof fn lemma_no_type_no_record(s: Seq<RecordView>, name: Seq<char>, qtype: u16)
    requires
        asked_type(qtype) is None,
    ensures
        resolve_spec(s, name, qtype) is None,
    decreases s.len(),
{
    if s.len() > 0 {
        lemma_no_type_no_record(s.drop_first(), name, qtype);
    }
}

/// What is found answers, and nothing is found only where nothing answers.
pub proof fn lemma_resolve(s: Seq<RecordView>, name: Seq<char>, qtype: u16)
    ensures
        match resolve_spec(s, name, qtype) {
            Some(r) => s.contains(r) && answers(r, name, qtype),
            None => forall|i: int| 0 <= i < s.len() ==> !answers(#[trigger] s[i], name, qtype),
        },
    decreases s.len(),
{
    if s.len() > 0 {
        let t = s.drop_first();
        lemma_resolve(t, name, qtype);
        if answers(s[0], name, qtype) {
            assert(s[0] == s[0]);
        } else {
            match resolve_spec(t, name, qtype) {
                Some(r) => {
                    let k = choose|k: int| 0 <= k < t.len() && t[k] == r;
                    assert(s[k + 1] == r);
                },
                None => {
                    assert forall|i: int| 0 <= i < s.len() implies !answers(
                        #[trigger] s[i],
                        name,
                        qtype,
                    ) by {
                        if i > 0 {
                            assert(t[i - 1] == s[i]);
                        }
                    }
                },
            }
        }
    }
}

/// Answers the query from the store: the response, and the response code
/// that it carries.
pub fn handle_query_with_code(query: DnsQuery, records: &DnsRecords) -> (res: (Vec<u8>, u8))
    ensures
        res.0@ == response_bytes(
            query@,
            answer_spec(records@, query@).ip,
            answer_spec(records@, query@).response_code,
            answer_spec(records@, query@).ttl,
        ),
        res.1 == response_code_spec(query@, answer_spec(records@, query@).response_code),
{
    let nowhere = Ipv4Addr::new(0, 0, 0, 0);
    if query.questions.len() == 0 {
        return build_response_with_code(&query, nowhere, RCODE_FORMERR, NEGATIVE_TTL);
    }
    let question = &query.questions[0];
    assert(query@.questions[0] == question@);
    let found = resolve(records, question.name.as_str(), question.qtype);
    let (ip, response_code, ttl) = match found {
        Some(record) => {
            if text_eq(record.record_type.as_str(), "A") {
                let ip = match record.ip {
                    Some(ip) => ip,
                    None => nowhere,
                };
                (ip, RCODE_NOERROR, record.ttl)
            } else {
                (nowhere, RCODE_NXDOMAIN, NEGATIVE_TTL)
            }
        },
        None => (nowhere, RCODE_NXDOMAIN, NEGATIVE_TTL),
    };
    build_response_with_code(&query, ip, response_code, ttl)
}

/// Answers the query from the store: the response.
pub fn handle_query(query: DnsQuery, records: &DnsRecords) -> (response: Vec<u8>)
    ensures
        response@ == response_bytes(
            query@,
            answer_spec(records@, query@).ip,
            answer_spec(records@, query@).response_code,
            answer_spec(records@, query@).ttl,
        ),
{
    handle_query_with_code(query, records).0
}

// ---------------------------------------------------------------------------
// Laws
// ---------------------------------------------------------------------------

/// The number of answers that the header of a response counts.
pub open spec fn answer_count(response: Seq<u8>) -> int {
    response[6] as int * 256 + response[7] as int
}

/// A query for a name that a well-formed store holds as an A record is
/// answered with response code 0, the address and the TTL of that record,
/// where the name can be put on the wire.
pub proof fn lemma_present_name_is_answered(s: Seq<RecordView>, query: DnsQueryView, r: RecordView)
    requires
        crate::store::well_formed(s),
        s.contains(r),
        r.record_type == "A"@,
        query.questions.len() > 0,
        query.questions[0].name == r.name,
        query.questions[0].qtype == 1,
        wire_name(r.name) is Some,
    ensures
        r.ip is Some,
        answer_spec(s, query) == (Answer { ip: r.ip->0, response_code: RCODE_NOERROR, ttl: r.ttl }),
        response_code_spec(query, answer_spec(s, query).response_code) == RCODE_NOERROR,
        response_bytes(query, r.ip->0, RCODE_NOERROR, r.ttl) == response_header(
            query.id,
            query.flags,
            RCODE_NOERROR,
        ) + wire_name(r.name)->0 + u16_be(1) + u16_be(query.questions[0].qclass)
            + crate::packet::a_record(wire_name(r.name)->0, r.ip->0, r.ttl)
            + crate::packet::opt_record(),
        answer_count(response_bytes(query, r.ip->0, RCODE_NOERROR, r.ttl)) == 1,
{
    let name = r.name;
    lemma_resolve(s, name, 1);
    let k = choose|k: int| 0 <= k < s.len() && s[k] == r;
    assert(answers(s[k], name, 1));
    let found = resolve_spec(s, name, 1)->0;
    let j = choose|j: int| 0 <= j < s.len() && s[j] == found;
    if j != k {
        assert(same_key(s[j], s[k]));
        if j < k {
            assert(!same_key(s[j], s[k]));
        } else {
            assert(!same_key(s[k], s[j]));
        }
    }
    assert(found == r);
    assert(crate::record::valid_record(s[k]));
    let bytes = response_bytes(query, r.ip->0, RCODE_NOERROR, r.ttl);
    let header = response_header(query.id, query.flags, RCODE_NOERROR);
    assert(header.len() == 12);
    assert(bytes[6] == header[6]);
    assert(bytes[7] == header[7]);
}

/// A query for a name that the store does not hold is answered with
/// response code 3 and no answer, where the name can be put on the wire.
pub proof fn lemma_absent_name_is_refused(s: Seq<RecordView>, query: DnsQueryView)
    requires
        query.questions.len() > 0,
        forall|i: int| 0 <= i < s.len() ==> (#[trigger] s[i]).name != query.questions[0].name,
        wire_name(query.questions[0].name) is Some,
    ensures
        answer_spec(s, query).response_code == RCODE_NXDOMAIN,
        response_code_spec(query, answer_spec(s, query).response_code) == RCODE_NXDOMAIN,
        answer_count(
            response_bytes(
                query,
                answer_spec(s, query).ip,
                answer_spec(s, query).response_code,
                answer_spec(s, query).ttl,
            ),
        ) == 0,
{
    let question = query.questions[0];
    lemma_resolve(s, question.name, question.qtype);
    match resolve_spec(s, question.name, question.qtype) {
        Some(r) => {
            let k = choose|k: int| 0 <= k < s.len() && s[k] == r;
            assert(s[k].name != question.name);
        },
        None => {},
    }
    let answer = answer_spec(s, query);
    let bytes = response_bytes(query, answer.ip, answer.response_code, answer.ttl);
    let header = response_header(query.id, query.flags, RCODE_NXDOMAIN);
    assert(header.len() == 12);
    assert(bytes[6] == header[6]);
    assert(bytes[7] == header[7]);
}

/// A query without a question is answered with response code 1 and no
/// answer.
pub proof fn lemma_no_question_is_format_error(s: Seq<RecordView>, query: DnsQueryView)
    requires
        query.questions.len() == 0,
    ensures
        answer_spec(s, query).response_code == RCODE_FORMERR,
        response_code_spec(query, answer_spec(s, query).response_code) == RCODE_FORMERR,
        response_bytes(
            query,
            answer_spec(s, query).ip,
            answer_spec(s, query).response_code,
            answer_spec(s, query).ttl,
        ) == response_header(query.id, query.flags, RCODE_FORMERR) + crate::packet::opt_record(),
        answer_count(
            response_bytes(
                query,
                answer_spec(s, query).ip,
                answer_spec(s, query).response_code,
                answer_spec(s, query).ttl,
            ),
        ) == 0,
{
    let header = response_header(query.id, query.flags, RCODE_FORMERR);
    assert(header.len() == 12);
    let bytes = header + crate::packet::opt_record();
    assert(bytes[6] == header[6]);
    assert(bytes[7] == header[7]);
}

} // verus!
