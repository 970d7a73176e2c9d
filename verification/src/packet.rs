//! DNS wire codec: query parsing and response framing over byte slices.
//!
//! A query is a twelve-byte header, one question (a name as length-prefixed
//! labels, a type and a class) and optionally one additional record, which is
//! read as an EDNS0 OPT pseudo-record. A response echoes the question, carries
//! at most one A record and always ends in an OPT record.

use crate::addr::Ipv4Addr;
use crate::text::{split, split_text};
use vstd::prelude::*;
use vstd::slice::slice_subrange;
use vstd::string::*;
use vstd::utf8::*;

verus! {

/// Why a datagram was not accepted as a query.
#[derive(Clone, Copy, Debug, PartialEq, Eq, Structural)]
pub enum PacketError {
    /// Fewer than the twelve bytes of a header.
    TooShort,
    /// A read would pass the end of the datagram, or a label is not UTF-8.
    Malformed,
    /// Not exactly one question, or a compression pointer in a name.
    Unsupported,
}

/// One question of a query.
#[derive(Debug, Clone)]
pub struct Question {
    pub name: String,
    pub qtype: u16,
    pub qclass: u16,
}

/// A parsed query.
#[derive(Debug, Clone)]
pub struct DnsQuery {
    pub id: u16,
    pub flags: u16,
    pub questions: Vec<Question>,
    /// Whether the query carried an OPT record.
    pub has_opt: bool,
    /// The requestor's UDP payload size; 512 without an OPT record.
    pub opt_payload_size: u16,
}

/// What a `Question` holds, as mathematical values.
pub struct QuestionView {
    pub name: Seq<char>,
    pub qtype: u16,
    pub qclass: u16,
}

/// What a `DnsQuery` holds, as mathematical values.
pub struct DnsQueryView {
    pub id: u16,
    pub flags: u16,
    pub questions: Seq<QuestionView>,
    pub has_opt: bool,
    pub opt_payload_size: u16,
}

impl View for Question {
    type V = QuestionView;

    open spec fn view(&self) -> QuestionView {
        QuestionView { name: self.name@, qtype: self.qtype, qclass: self.qclass }
    }
}

impl View for DnsQuery {
    type V = DnsQueryView;

    open spec fn view(&self) -> DnsQueryView {
        DnsQueryView {
            id: self.id,
            flags: self.flags,
            questions: Seq::new(self.questions@.len(), |i: int| self.questions@[i]@),
            has_opt: self.has_opt,
            opt_payload_size: self.opt_payload_size,
        }
    }
}

/// Payload size assumed for a query without an OPT record.
pub const DEFAULT_PAYLOAD_SIZE: u16 = 512;

/// Payload size that every response advertises.
pub const ADVERTISED_PAYLOAD_SIZE: u16 = 4096;

/// Record type of the OPT pseudo-record.
pub const TYPE_OPT: u16 = 41;

/// Response code of a server failure.
pub const RCODE_SERVFAIL: u8 = 2;

// ---------------------------------------------------------------------------
// Reading
// ---------------------------------------------------------------------------

/// The big-endian value of two bytes.
pub open spec fn be16(hi: u8, lo: u8) -> u16 {
    (hi as int * 256 + lo as int) as u16
}

/// The labels of the name that starts at `offset`, and the offset after its
/// terminating zero byte; or the first failure met on the way.
pub open spec fn scan_name(bytes: Seq<u8>, offset: int) -> Result<(Seq<Seq<u8>>, int), PacketError>
    decreases bytes.len() - offset,
{
    if offset < 0 || offset >= bytes.len() {
        Err(PacketError::Malformed)
    } else {
        let len = bytes[offset] as int;
        if len == 0 {
            Ok((Seq::empty(), offset + 1))
        } else if len >= 192 {
            Err(PacketError::Unsupported)
        } else if offset + 1 + len > bytes.len() {
            Err(PacketError::Malformed)
        } else if !valid_utf8(bytes.subrange(offset + 1, offset + 1 + len)) {
            Err(PacketError::Malformed)
        } else {
            match scan_name(bytes, offset + 1 + len) {
                Ok((rest, end)) => Ok(
                    (seq![bytes.subrange(offset + 1, offset + 1 + len)] + rest, end),
                ),
                Err(e) => Err(e),
            }
        }
    }
}

/// The decoded labels joined with `.`.
pub open spec fn dotted(labels: Seq<Seq<u8>>) -> Seq<char>
    decreases labels.len(),
{
    if labels.len() == 0 {
        Seq::empty()
    } else if labels.len() == 1 {
        decode_utf8(labels[0])
    } else {
        dotted(labels.drop_last()) + seq!['.'] + decode_utf8(labels.last())
    }
}

/// The name that starts at `offset` as text, with the offset after it.
pub open spec fn read_name_spec(bytes: Seq<u8>, offset: int) -> Result<(Seq<char>, int), PacketError> {
    match scan_name(bytes, offset) {
        Ok((labels, end)) => Ok((dotted(labels), end)),
        Err(e) => Err(e),
    }
}

/// `r` with `labels` put in front of the labels it found.
pub open spec fn after_labels(
    labels: Seq<Seq<u8>>,
    r: Result<(Seq<Seq<u8>>, int), PacketError>,
) -> Result<(Seq<Seq<u8>>, int), PacketError> {
    match r {
        Ok((rest, end)) => Ok((labels + rest, end)),
        Err(e) => Err(e),
    }
}

/// The additional record that starts at `offset`, read as an OPT record:
/// whether it is one, and the payload size to record.
pub open spec fn scan_opt(bytes: Seq<u8>, offset: int) -> Result<(bool, u16), PacketError> {
    match scan_name(bytes, offset) {
        Err(e) => Err(e),
        Ok((_, at)) => {
            if at + 10 > bytes.len() {
                Err(PacketError::Malformed)
            } else if at + 10 + be16(bytes[at + 8], bytes[at + 9]) > bytes.len() {
                Err(PacketError::Malformed)
            } else if be16(bytes[at], bytes[at + 1]) == TYPE_OPT {
                Ok((true, be16(bytes[at + 2], bytes[at + 3])))
            } else {
                Ok((false, DEFAULT_PAYLOAD_SIZE))
            }
        },
    }
}

/// What a datagram parses to.
pub open spec fn parse_spec(bytes: Seq<u8>) -> Result<DnsQueryView, PacketError> {
    if bytes.len() < 12 {
        Err(PacketError::TooShort)
    } else if be16(bytes[4], bytes[5]) != 1 {
        Err(PacketError::Unsupported)
    } else {
        match scan_name(bytes, 12) {
            Err(e) => Err(e),
            Ok((labels, end)) => {
                if end + 4 > bytes.len() {
                    Err(PacketError::Malformed)
                } else {
                    let question = QuestionView {
                        name: dotted(labels),
                        qtype: be16(bytes[end], bytes[end + 1]),
                        qclass: be16(bytes[end + 2], bytes[end + 3]),
                    };
                    let opt = if be16(bytes[10], bytes[11]) == 0 {
                        Ok((false, DEFAULT_PAYLOAD_SIZE))
                    } else {
                        scan_opt(bytes, end + 4)
                    };
                    match opt {
                        Err(e) => Err(e),
                        Ok((has_opt, size)) => Ok(
                            DnsQueryView {
                                id: be16(bytes[0], bytes[1]),
                                flags: be16(bytes[2], bytes[3]),
                                questions: seq![question],
                                has_opt,
                                opt_payload_size: size,
                            },
                        ),
                    }
                }
            },
        }
    }
}

/// The labels of the name that starts at `offset` pass the end of `bytes`:
/// a label reaches beyond the last byte, or the bytes end before the
/// terminating zero.
pub open spec fn name_overruns(bytes: Seq<u8>, offset: int) -> bool
    decreases bytes.len() - offset,
{
    if offset < 0 || offset >= bytes.len() {
        true
    } else {
        let len = bytes[offset] as int;
        if len == 0 || len >= 192 {
            false
        } else if offset + 1 + len > bytes.len() {
            true
        } else {
            name_overruns(bytes, offset + 1 + len)
        }
    }
}

/// A name whose labels pass the end of the bytes reads as `Malformed`.
pub proof fn lemma_overrun_is_malformed(bytes: Seq<u8>, offset: int)
    requires
        name_overruns(bytes, offset),
    ensures
        scan_name(bytes, offset) == Err::<(Seq<Seq<u8>>, int), PacketError>(PacketError::Malformed),
    decreases bytes.len() - offset,
{
    if 0 <= offset < bytes.len() {
        let len = bytes[offset] as int;
        if offset + 1 + len <= bytes.len() {
            lemma_overrun_is_malformed(bytes, offset + 1 + len);
        }
    }
}

/// A datagram shorter than a header is `TooShort`.
pub proof fn lemma_short_datagram(bytes: Seq<u8>)
    requires
        bytes.len() < 12,
    ensures
        parse_spec(bytes) == Err::<DnsQueryView, PacketError>(PacketError::TooShort),
{
}

/// A header that does not count exactly one question is `Unsupported`.
pub proof fn lemma_question_count(bytes: Seq<u8>)
    requires
        bytes.len() >= 12,
        be16(bytes[4], bytes[5]) != 1,
    ensures
        parse_spec(bytes) == Err::<DnsQueryView, PacketError>(PacketError::Unsupported),
{
}

/// A single question whose labels pass the end of the datagram is
/// `Malformed`.
pub proof fn lemma_question_overrun(bytes: Seq<u8>)
    requires
        bytes.len() >= 12,
        be16(bytes[4], bytes[5]) == 1,
        name_overruns(bytes, 12),
    ensures
        parse_spec(bytes) == Err::<DnsQueryView, PacketError>(PacketError::Malformed),
{
    lemma_overrun_is_malformed(bytes, 12);
}

/// `std::str::from_utf8`: the text of `bytes`, exactly when they are valid
/// UTF-8; the text is then their decoding.
#[verifier::external_body]
fn utf8_text(bytes: &[u8]) -> (r: Option<&str>)
    ensures
        r is Some <==> valid_utf8(bytes@),
        r is Some ==> r->0@ == decode_utf8(bytes@),
{
    std::str::from_utf8(bytes).ok()
}

/// Reads a big-endian `u16` at `offset`.
fn read_u16(packet: &[u8], offset: usize) -> (v: u16)
    requires
        offset + 2 <= packet@.len(),
    ensures
        v == be16(packet@[offset as int], packet@[offset as int + 1]),
{
    let hi: u16 = packet[offset] as u16;
    let lo: u16 = packet[offset + 1] as u16;
    hi * 256 + lo
}

/// Reads the name that starts at `offset`: its labels joined with `.`, and
/// the offset of the first byte after the name.
///
/// A length byte with its two top bits set is a compression pointer and is
/// refused as `Unsupported`; a label that passes the end of the datagram or
/// is not UTF-8 is `Malformed`.
pub fn read_name(packet: &[u8], offset: usize) -> (res: Result<(String, usize), PacketError>)
    ensures
        match res {
            Ok((name, end)) => read_name_spec(packet@, offset as int) == Ok::<
                (Seq<char>, int),
                PacketError,
            >((name@, end as int)),
            Err(e) => read_name_spec(packet@, offset as int) == Err::<(Seq<char>, int), PacketError>(e),
        },
{
    let mut name = String::new();
    let mut pos: usize = offset;
    let mut first = true;
    let ghost mut labels: Seq<Seq<u8>> = Seq::empty();
    proof {
        assert(after_labels(labels, scan_name(packet@, pos as int)) =~= scan_name(
            packet@,
            offset as int,
        )) by {
            match scan_name(packet@, pos as int) {
                Ok((rest, end)) => {
                    assert(labels + rest =~= rest);
                },
                Err(_) => {},
            }
        }
    }
    loop
        invariant
            scan_name(packet@, offset as int) == after_labels(labels, scan_name(packet@, pos as int)),
            name@ == dotted(labels),
            first == (labels.len() == 0),
        decreases packet@.len() - pos,
    {
        if pos >= packet.len() {
            return Err(PacketError::Malformed);
        }
        let len: usize = packet[pos] as usize;
        if len == 0 {
            proof {
                assert(labels + Seq::<Seq<u8>>::empty() =~= labels);
            }
            return Ok((name, pos + 1));
        }
        if len >= 192 {
            return Err(PacketError::Unsupported);
        }
        if len > packet.len() - (pos + 1) {
            return Err(PacketError::Malformed);
        }
        let label = slice_subrange(packet, pos + 1, pos + 1 + len);
        match utf8_text(label) {
            None => {
                return Err(PacketError::Malformed);
            },
            Some(text) => {
                if !first {
                    proof {
                        reveal_strlit(".");
                    }
                    name.append(".");
                    assert(name@ =~= dotted(labels) + seq!['.']) by {
                        assert("."@ =~= seq!['.']);
                    }
                }
                name.append(text);
                proof {
                    let next = labels.push(label@);
                    assert(next.drop_last() =~= labels);
                    assert(next.last() == label@);
                    if labels.len() == 0 {
                        assert(name@ =~= decode_utf8(label@));
                    }
                    assert(name@ == dotted(next));
                    match scan_name(packet@, pos + 1 + len) {
                        Ok((rest, end)) => {
                            assert(labels + (seq![label@] + rest) =~= next + rest);
                        },
                        Err(_) => {},
                    }
                    labels = next;
                }
                first = false;
                pos = pos + 1 + len;
            },
        }
    }
}

/// Reads the additional record at `offset` as an OPT record.
fn read_opt(packet: &[u8], offset: usize) -> (res: Result<(bool, u16), PacketError>)
    ensures
        res == scan_opt(packet@, offset as int),
{
    match read_name(packet, offset) {
        Err(e) => Err(e),
        Ok((_, at)) => {
            if at > packet.len() || packet.len() - at < 10 {
                return Err(PacketError::Malformed);
            }
            let rr_type = read_u16(packet, at);
            let payload = read_u16(packet, at + 2);
            let rdlength = read_u16(packet, at + 8);
            if packet.len() - at - 10 < rdlength as usize {
                Err(PacketError::Malformed)
            } else if rr_type == TYPE_OPT {
                Ok((true, payload))
            } else {
                Ok((false, DEFAULT_PAYLOAD_SIZE))
            }
        },
    }
}

/// Parses one datagram as a query.
///
/// Fails with `TooShort` below twelve bytes, with `Unsupported` unless the
/// header counts exactly one question, and with the first failure met while
/// reading the question and, when the header counts an additional record,
/// that record.
pub fn parse(packet: &[u8]) -> (res: Result<DnsQuery, PacketError>)
    ensures
        match res {
            Ok(query) => parse_spec(packet@) == Ok::<DnsQueryView, PacketError>(query@),
            Err(e) => parse_spec(packet@) == Err::<DnsQueryView, PacketError>(e),
        },
        res is Ok ==> res->Ok_0.questions@.len() == 1,
        packet@.len() < 12 ==> res == Err::<DnsQuery, PacketError>(PacketError::TooShort),
        packet@.len() >= 12 && be16(packet@[4], packet@[5]) != 1 ==> res == Err::<
            DnsQuery,
            PacketError,
        >(PacketError::Unsupported),
        packet@.len() >= 12 && be16(packet@[4], packet@[5]) == 1 && name_overruns(packet@, 12)
            ==> res == Err::<DnsQuery, PacketError>(PacketError::Malformed),
{
    proof {
        if packet@.len() >= 12 && name_overruns(packet@, 12) {
            lemma_overrun_is_malformed(packet@, 12);
        }
    }
    if packet.len() < 12 {
        return Err(PacketError::TooShort);
    }
    let id = read_u16(packet, 0);
    let flags = read_u16(packet, 2);
    let qd_count = read_u16(packet, 4);
    let ar_count = read_u16(packet, 10);
    if qd_count != 1 {
        return Err(PacketError::Unsupported);
    }
    let (name, end) = match read_name(packet, 12) {
        Ok(found) => found,
        Err(e) => {
            return Err(e);
        },
    };
    if end > packet.len() || packet.len() - end < 4 {
        return Err(PacketError::Malformed);
    }
    let qtype = read_u16(packet, end);
    let qclass = read_u16(packet, end + 2);
    let (has_opt, opt_payload_size) = if ar_count == 0 {
        (false, DEFAULT_PAYLOAD_SIZE)
    } else {
        match read_opt(packet, end + 4) {
            Ok(found) => found,
            Err(e) => {
                return Err(e);
            },
        }
    };
    let mut questions: Vec<Question> = Vec::new();
    questions.push(Question { name, qtype, qclass });
    let query = DnsQuery { id, flags, questions, has_opt, opt_payload_size };
    proof {
        assert(query@.questions =~= seq![query.questions@[0]@]);
    }
    Ok(query)
}

// ---------------------------------------------------------------------------
// Writing
// ---------------------------------------------------------------------------

/// The two bytes of `v`, most significant first.
pub open spec fn u16_be(v: u16) -> Seq<u8> {
    seq![(v / 256) as u8, (v % 256) as u8]
}

/// The four bytes of `v`, most significant first.
pub open spec fn u32_be(v: u32) -> Seq<u8> {
    seq![
        (v / 16777216) as u8,
        ((v / 65536) % 256) as u8,
        ((v / 256) % 256) as u8,
        (v % 256) as u8,
    ]
}

/// The labels on the wire, each behind its length byte, without the
/// terminating zero.
pub open spec fn wire_labels(labels: Seq<Seq<char>>) -> Seq<u8>
    decreases labels.len(),
{
    if labels.len() == 0 {
        Seq::empty()
    } else {
        wire_labels(labels.drop_last()) + seq![encode_utf8(labels.last()).len() as u8]
            + encode_utf8(labels.last())
    }
}

/// Every label takes at most 63 bytes.
pub open spec fn labels_fit(labels: Seq<Seq<char>>) -> bool {
    forall|i: int| 0 <= i < labels.len() ==> encode_utf8(#[trigger] labels[i]).len() <= 63
}

/// A name on the wire: the labels between its dots, each behind its length
/// byte, then a zero byte. The empty name is the root, a single zero byte.
/// `None` when a label takes more than 63 bytes or the whole more than 255.
pub open spec fn wire_name(name: Seq<char>) -> Option<Seq<u8>> {
    if name.len() == 0 {
        Some(seq![0u8])
    } else if !labels_fit(split(name, '.')) {
        None
    } else if wire_labels(split(name, '.')).len() + 1 > 255 {
        None
    } else {
        Some(wire_labels(split(name, '.')) + seq![0u8])
    }
}

/// The flags of a response: those of the query with the response bit set
/// and the response code in the low bits.
pub open spec fn response_flags(flags: u16, response_code: u8) -> u16 {
    (flags | 0x8000u16) | (response_code as u16)
}

/// The twelve bytes of a response header. It counts one question, one
/// answer exactly when the response code is zero, no authority record and
/// one additional record.
pub open spec fn response_header(id: u16, flags: u16, response_code: u8) -> Seq<u8> {
    u16_be(id) + u16_be(response_flags(flags, response_code)) + u16_be(1) + u16_be(
        if response_code == 0 {
            1u16
        } else {
            0u16
        },
    ) + u16_be(0) + u16_be(1)
}

/// The OPT record that ends every response: root name, type 41, a payload
/// size of 4096 in the class field, four zero bytes, no data.
pub open spec fn opt_record() -> Seq<u8> {
    seq![0u8] + u16_be(TYPE_OPT) + u16_be(ADVERTISED_PAYLOAD_SIZE) + u32_be(0) + u16_be(0)
}

/// One A record for `name`: type 1, class 1, the TTL, four octets.
pub open spec fn a_record(name: Seq<u8>, ip: Ipv4Addr, ttl: u32) -> Seq<u8> {
    name + u16_be(1) + u16_be(1) + u32_be(ttl) + u16_be(4) + ip.spec_octets()
}

/// The response code that a response to `query` carries when `response_code`
/// is asked for: a server failure where the name of the question cannot be
/// put on the wire.
pub open spec fn response_code_spec(query: DnsQueryView, response_code: u8) -> u8 {
    if query.questions.len() > 0 && wire_name(query.questions[0].name) is None {
        RCODE_SERVFAIL
    } else {
        response_code
    }
}

/// The bytes of a response to `query`.
///
/// The header, then the first question of the query as it was asked, then
/// one A record when the response code is zero, then the OPT record. A query
/// without a question gets header and OPT record alone; one whose name
/// cannot be put on the wire gets the header of a server failure and the OPT
/// record.
pub open spec fn response_bytes(query: DnsQueryView, ip: Ipv4Addr, response_code: u8, ttl: u32) -> Seq<u8> {
    if query.questions.len() == 0 {
        response_header(query.id, query.flags, response_code) + opt_record()
    } else {
        let question = query.questions[0];
        match wire_name(question.name) {
            None => response_header(query.id, query.flags, RCODE_SERVFAIL) + opt_record(),
            Some(name) => response_header(query.id, query.flags, response_code) + name + u16_be(
                question.qtype,
            ) + u16_be(question.qclass) + (if response_code == 0 {
                a_record(name, ip, ttl)
            } else {
                Seq::empty()
            }) + opt_record(),
        }
    }
}

/// Appends the two bytes of `v`.
fn push_u16(out: &mut Vec<u8>, v: u16)
    ensures
        final(out)@ == old(out)@ + u16_be(v),
{
    out.push((v / 256) as u8);
    out.push((v % 256) as u8);
    assert(out@ =~= old(out)@ + u16_be(v));
}

/// Appends the four bytes of `v`.
fn push_u32(out: &mut Vec<u8>, v: u32)
    ensures
        final(out)@ == old(out)@ + u32_be(v),
{
    out.push((v / 16777216) as u8);
    out.push(((v / 65536) % 256) as u8);
    out.push(((v / 256) % 256) as u8);
    out.push((v % 256) as u8);
    assert(out@ =~= old(out)@ + u32_be(v));
}

/// Appends the header of a response.
fn push_header(out: &mut Vec<u8>, id: u16, flags: u16, response_code: u8)
    ensures
        final(out)@ == old(out)@ + response_header(id, flags, response_code),
{
    push_u16(out, id);
    push_u16(out, (flags | 0x8000) | (response_code as u16));
    push_u16(out, 1);
    push_u16(out, if response_code == 0 {
        1
    } else {
        0
    });
    push_u16(out, 0);
    push_u16(out, 1);
    assert(out@ =~= old(out)@ + response_header(id, flags, response_code));
}

/// Appends the OPT record.
fn push_opt(out: &mut Vec<u8>)
    ensures
        final(out)@ == old(out)@ + opt_record(),
{
    out.push(0);
    push_u16(out, TYPE_OPT);
    push_u16(out, ADVERTISED_PAYLOAD_SIZE);
    push_u32(out, 0);
    push_u16(out, 0);
    assert(out@ =~= old(out)@ + opt_record());
}

/// Encodes a domain name for the wire.
///
/// `None` when a label takes more than 63 bytes or the encoded name more
/// than 255.
pub fn encode_name(name: &str) -> (res: Option<Vec<u8>>)
    ensures
        match res {
            Some(bytes) => wire_name(name@) == Some(bytes@),
            None => wire_name(name@) is None,
        },
{
    let mut encoded: Vec<u8> = Vec::new();
    if name.is_empty() {
        encoded.push(0);
        assert(encoded@ =~= seq![0u8]);
        return Some(encoded);
    }
    let labels = split_text(name, '.');
    let ghost all = split(name@, '.');
    let mut i: usize = 0;
    while i < labels.len()
        invariant
            i <= labels@.len(),
            all == split(name@, '.'),
            labels@.len() == all.len(),
            forall|k: int| 0 <= k < labels@.len() ==> (#[trigger] labels@[k])@ == all[k],
            encoded@ == wire_labels(all.take(i as int)),
            labels_fit(all.take(i as int)),
        decreases labels@.len() - i,
    {
        let bytes = labels[i].as_str().as_bytes();
        assert(bytes@ == encode_utf8(all[i as int]));
        if bytes.len() > 63 {
            return None;
        }
        encoded.push(bytes.len() as u8);
        encoded.extend_from_slice(bytes);
        proof {
            let next = all.take(i + 1);
            assert(next.drop_last() =~= all.take(i as int));
            assert(next.last() == all[i as int]);
            assert forall|k: int| 0 <= k < next.len() implies encode_utf8(#[trigger] next[k]).len()
                <= 63 by {
                if k < i {
                    assert(next[k] == all.take(i as int)[k]);
                }
            }
        }
        i += 1;
    }
    proof {
        assert(all.take(i as int) =~= all);
    }
    if encoded.len() > 254 {
        return None;
    }
    encoded.push(0);
    Some(encoded)
}

/// Builds the response to `query` and tells which response code it carries.
///
/// The code is `response_code`, unless the name of the question cannot be
/// put on the wire: then the response is a server failure without question
/// and answer.
pub fn build_response_with_code(query: &DnsQuery, ip: Ipv4Addr, response_code: u8, ttl: u32) -> (res: (
    Vec<u8>,
    u8,
))
    ensures
        res.0@ == response_bytes(query@, ip, response_code, ttl),
        res.1 == response_code_spec(query@, response_code),
{
    let mut response: Vec<u8> = Vec::new();
    if query.questions.len() == 0 {
        push_header(&mut response, query.id, query.flags, response_code);
        push_opt(&mut response);
        return (response, response_code);
    }
    let question = &query.questions[0];
    assert(query@.questions[0] == question@);
    match encode_name(question.name.as_str()) {
        None => {
            push_header(&mut response, query.id, query.flags, RCODE_SERVFAIL);
            push_opt(&mut response);
            (response, RCODE_SERVFAIL)
        },
        Some(name) => {
            push_header(&mut response, query.id, query.flags, response_code);
            response.extend_from_slice(name.as_slice());
            push_u16(&mut response, question.qtype);
            push_u16(&mut response, question.qclass);
            let ghost before = response@;
            if response_code == 0 {
                response.extend_from_slice(name.as_slice());
                push_u16(&mut response, 1);
                push_u16(&mut response, 1);
                push_u32(&mut response, ttl);
                push_u16(&mut response, 4);
                let octets = ip.octets();
                response.extend_from_slice(octets.as_slice());
                assert(response@ =~= before + a_record(name@, ip, ttl));
            } else {
                assert(response@ =~= before + Seq::<u8>::empty());
            }
            push_opt(&mut response);
            (response, response_code)
        },
    }
}

/// Builds the response to `query`: see `response_bytes`.
///
/// The record type and class are informational and do not reach the wire.
pub fn build_response(
    query: DnsQuery,
    ip: Ipv4Addr,
    response_code: u8,
    ttl: u32,
    _record_type: String,
    _class: String,
) -> (response: Vec<u8>)
    ensures
        response@ == response_bytes(query@, ip, response_code, ttl),
{
    build_response_with_code(&query, ip, response_code, ttl).0
}

} // verus!
