//! What the UDP server decides for each datagram: whether it is answered,
//! with what, and under which labels it is counted.
//!
//! Receiving, queueing and sending are the caller's: a datagram goes in, an
//! outcome comes out.

use crate::packet::{parse, parse_spec, response_bytes, response_code_spec, PacketError};
use crate::query::{answer_spec, handle_query_with_code};
use crate::store::DnsRecords;
use vstd::prelude::*;

verus! {

/// The size of the buffer that a datagram is received into.
pub const RECEIVE_BUFFER_SIZE: usize = 512;

/// The number of datagrams that may wait between reception and processing.
pub const QUEUE_DEPTH: usize = 1024;

/// The number of bytes of an unreadable datagram that are shown in the log.
pub const LOGGED_PREFIX: usize = 32;

/// The label under which queries of a type are counted.
pub open spec fn query_type_label_spec(qtype: u16) -> Seq<char> {
    if qtype == 1 {
        "A"@
    } else if qtype == 28 {
        "AAAA"@
    } else if qtype == 15 {
        "MX"@
    } else if qtype == 2 {
        "NS"@
    } else if qtype == 5 {
        "CNAME"@
    } else if qtype == 16 {
        "TXT"@
    } else if qtype == 12 {
        "PTR"@
    } else if qtype == 6 {
        "SOA"@
    } else {
        "OTHER"@
    }
}

/// The label under which responses with a code are counted.
pub open spec fn response_code_label_spec(code: u8) -> Seq<char> {
    if code == 0 {
        "NOERROR"@
    } else if code == 1 {
        "FORMERR"@
    } else if code == 2 {
        "SERVFAIL"@
    } else if code == 3 {
        "NXDOMAIN"@
    } else if code == 4 {
        "NOTIMP"@
    } else if code == 5 {
        "REFUSED"@
    } else {
        "OTHER"@
    }
}

/// The label under which queries of a type are counted.
pub fn query_type_label(qtype: u16) -> (label: &'static str)
    ensures
        label@ == query_type_label_spec(qtype),
{
    if qtype == 1 {
        "A"
    } else if qtype == 28 {
        "AAAA"
    } else if qtype == 15 {
        "MX"
    } else if qtype == 2 {
        "NS"
    } else if qtype == 5 {
        "CNAME"
    } else if qtype == 16 {
        "TXT"
    } else if qtype == 12 {
        "PTR"
    } else if qtype == 6 {
        "SOA"
    } else {
        "OTHER"
    }
}

/// The label under which responses with a code are counted.
pub fn response_code_label(code: u8) -> (label: &'static str)
    ensures
        label@ == response_code_label_spec(code),
{
    if code == 0 {
        "NOERROR"
    } else if code == 1 {
        "FORMERR"
    } else if code == 2 {
        "SERVFAIL"
    } else if code == 3 {
        "NXDOMAIN"
    } else if code == 4 {
        "NOTIMP"
    } else if code == 5 {
        "REFUSED"
    } else {
        "OTHER"
    }
}

/// The number of bytes of a datagram of `len` bytes that are shown in the
/// log: all of it, up to thirty-two.
pub fn logged_prefix_len(len: usize) -> (shown: usize)
    ensures
        shown == (if len < LOGGED_PREFIX {
            len
        } else {
            LOGGED_PREFIX
        }),
{
    if len < LOGGED_PREFIX {
        len
    } else {
        LOGGED_PREFIX
    }
}

/// A response to send, and how the exchange is counted.
#[derive(Debug)]
pub struct Reply {
    /// The bytes to send back to where the datagram came from.
    pub response: Vec<u8>,
    pub response_code: u8,
    pub query_id: u16,
    pub query_name: String,
    /// The label of the query counter and of the duration histogram.
    pub query_type: &'static str,
    /// The label of the response counter.
    pub response_label: &'static str,
    /// Whether the counter of name errors goes up.
    pub count_nxdomain: bool,
    /// Whether the counter of server failures goes up.
    pub count_servfail: bool,
}

/// What becomes of a datagram.
#[derive(Debug)]
pub enum PacketOutcome {
    /// It was a query: the reply is sent.
    Answered(Reply),
    /// It was not a query: nothing is sent, and the counter of packet
    /// errors goes up.
    Dropped(PacketError),
}

/// Decides what becomes of a datagram.
///
/// A datagram that parses is answered from the store; the reply carries the
/// labels under which it is counted, and the dedicated counters go up for
/// the response codes 3 and 2. A datagram that does not parse is dropped
/// with the error of the parser.
pub fn handle_packet(packet: &[u8], records: &DnsRecords) -> (outcome: PacketOutcome)
    ensures
        match outcome {
            PacketOutcome::Dropped(e) => parse_spec(packet@) == Err::<
                crate::packet::DnsQueryView,
                PacketError,
            >(e),
            PacketOutcome::Answered(reply) => {
                &&& parse_spec(packet@) is Ok
                &&& reply.response@ == response_bytes(
                    parse_spec(packet@)->Ok_0,
                    answer_spec(records@, parse_spec(packet@)->Ok_0).ip,
                    answer_spec(records@, parse_spec(packet@)->Ok_0).response_code,
                    answer_spec(records@, parse_spec(packet@)->Ok_0).ttl,
                )
                &&& reply.response_code == response_code_spec(
                    parse_spec(packet@)->Ok_0,
                    answer_spec(records@, parse_spec(packet@)->Ok_0).response_code,
                )
                &&& reply.query_id == parse_spec(packet@)->Ok_0.id
                &&& reply.query_name@ == parse_spec(packet@)->Ok_0.questions[0].name
                &&& reply.query_type@ == query_type_label_spec(
                    parse_spec(packet@)->Ok_0.questions[0].qtype,
                )
                &&& reply.response_label@ == response_code_label_spec(reply.response_code)
                &&& reply.count_nxdomain == (reply.response_code == 3)
                &&& reply.count_servfail == (reply.response_code == 2)
            },
        },
{
    let query = match parse(packet) {
        Ok(q) => q,
        Err(e) => {
            return PacketOutcome::Dropped(e);
        },
    };
    let query_id = query.id;
    let question = &query.questions[0];
    assert(query@.questions[0] == question@);
    let query_type = query_type_label(question.qtype);
    let query_name = question.name.clone();
    let (response, response_code) = handle_query_with_code(query, records);
    PacketOutcome::Answered(
        Reply {
            response,
            response_code,
            query_id,
            query_name,
            query_type,
            response_label: response_code_label(response_code),
            count_nxdomain: response_code == 3,
            count_servfail: response_code == 2,
        },
    )
}

} // verus!
