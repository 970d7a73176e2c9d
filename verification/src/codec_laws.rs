//! Laws of the wire codec: a name that was put on the wire reads back, and
//! so does a response.

use crate::addr::Ipv4Addr;
use crate::packet::{
    a_record, be16, dotted, labels_fit, opt_record, parse_spec, response_bytes, response_flags,
    response_header, scan_name, scan_opt, u16_be, u32_be, wire_labels, wire_name, DnsQueryView,
    PacketError, QuestionView,
};
use crate::text::{first_index, join, lemma_first_index_is, lemma_join_push, split};
use vstd::prelude::*;
use vstd::utf8::*;

verus! {

/// The first index lies in the text or at its end; where it lies in the
/// text, the character stands there.
pub proof fn lemma_first_index(s: Seq<char>, c: char)
    ensures
        0 <= first_index(s, c) <= s.len(),
        first_index(s, c) < s.len() ==> s[first_index(s, c) as int] == c,
    decreases s.len(),
{
    if s.len() > 0 && s[0] != c {
        lemma_first_index(s.drop_first(), c);
    }
}

/// Joining what was split gives the text back.
pub proof fn lemma_join_split(s: Seq<char>, sep: char)
    ensures
        split(s, sep).len() >= 1,
        join(split(s, sep), sep) == s,
    decreases s.len(),
{
    lemma_first_index(s, sep);
    let i = first_index(s, sep) as int;
    if i < s.len() {
        let rest = s.skip(i + 1);
        lemma_join_split(rest, sep);
        let parts = split(s, sep);
        assert(parts.drop_first() =~= split(rest, sep));
        assert(join(parts, sep) =~= s.take(i) + seq![sep] + rest);
        assert(s.take(i) + seq![sep] + rest =~= s);
    }
}

/// The bytes of the labels, each label encoded as UTF-8.
pub open spec fn label_bytes(labels: Seq<Seq<char>>) -> Seq<Seq<u8>> {
    Seq::new(labels.len(), |i: int| encode_utf8(labels[i]))
}

/// No label is empty.
pub open spec fn labels_filled(labels: Seq<Seq<char>>) -> bool {
    forall|i: int| 0 <= i < labels.len() ==> (#[trigger] labels[i]).len() > 0
}

/// The labels on the wire are the first label behind its length byte, then
/// the other labels.
proof fn lemma_wire_labels_front(labels: Seq<Seq<char>>)
    requires
        labels.len() >= 1,
    ensures
        wire_labels(labels) == seq![encode_utf8(labels[0]).len() as u8] + encode_utf8(labels[0])
            + wire_labels(labels.drop_first()),
    decreases labels.len(),
{
    let init = labels.drop_last();
    let last = labels.last();
    if labels.len() == 1 {
        assert(init =~= Seq::<Seq<char>>::empty());
        assert(labels.drop_first() =~= Seq::<Seq<char>>::empty());
        assert(wire_labels(labels) =~= seq![encode_utf8(labels[0]).len() as u8] + encode_utf8(
            labels[0],
        ) + wire_labels(labels.drop_first()));
    } else {
        lemma_wire_labels_front(init);
        let tail = labels.drop_first();
        assert(tail.drop_last() =~= init.drop_first());
        assert(tail.last() == last);
        assert(init[0] == labels[0]);
        assert(wire_labels(labels) =~= seq![encode_utf8(labels[0]).len() as u8] + encode_utf8(
            labels[0],
        ) + wire_labels(tail));
    }
}

/// Labels that were put on the wire at `offset`, with the terminating zero
/// behind them, are read back as they were, up to the byte behind the zero.
pub proof fn lemma_scan_wire(bytes: Seq<u8>, offset: int, labels: Seq<Seq<char>>)
    requires
        0 <= offset,
        labels_fit(labels),
        labels_filled(labels),
        offset + wire_labels(labels).len() + 1 <= bytes.len(),
        bytes.subrange(offset, offset + wire_labels(labels).len() + 1) == wire_labels(labels) + seq![
            0u8,
        ],
    ensures
        scan_name(bytes, offset) == Ok::<(Seq<Seq<u8>>, int), PacketError>(
            (label_bytes(labels), offset + wire_labels(labels).len() + 1),
        ),
    decreases labels.len(),
{
    let wire = wire_labels(labels) + seq![0u8];
    let piece = bytes.subrange(offset, offset + wire_labels(labels).len() + 1);
    if labels.len() == 0 {
        assert(piece[0] == 0u8);
        assert(bytes[offset] == piece[0]);
        assert(label_bytes(labels) =~= Seq::<Seq<u8>>::empty());
    } else {
        lemma_wire_labels_front(labels);
        let first = encode_utf8(labels[0]);
        let tail = labels.drop_first();
        let len = first.len() as int;
        assert(labels[0].len() > 0);
        assert(first.len() >= 1) by {
            assert(encode_scalar(labels[0][0] as u32).len() >= 1);
        }
        assert(first.len() <= 63);
        assert(bytes[offset] == piece[0]);
        assert(piece[0] == wire[0]);
        assert(wire[0] == len as u8);
        assert(bytes.subrange(offset + 1, offset + 1 + len) =~= first) by {
            assert forall|k: int| 0 <= k < len implies bytes[offset + 1 + k] == first[k] by {
                assert(bytes[offset + 1 + k] == piece[1 + k]);
                assert(piece[1 + k] == wire[1 + k]);
            }
        }
        encode_utf8_valid_utf8(labels[0]);
        let next = offset + 1 + len;
        assert forall|i: int| 0 <= i < tail.len() implies encode_utf8(#[trigger] tail[i]).len()
            <= 63 && tail[i].len() > 0 by {
            assert(tail[i] == labels[i + 1]);
        }
        assert(bytes.subrange(next, next + wire_labels(tail).len() + 1) =~= wire_labels(tail)
            + seq![0u8]) by {
            assert forall|k: int| 0 <= k < wire_labels(tail).len() + 1 implies bytes[next + k] == (
            wire_labels(tail) + seq![0u8])[k] by {
                assert(bytes[next + k] == piece[1 + len + k]);
                assert(piece[1 + len + k] == wire[1 + len + k]);
            }
        }
        lemma_scan_wire(bytes, next, tail);
        assert(seq![first] + label_bytes(tail) =~= label_bytes(labels));
    }
}

/// The encoded labels decode and join to what the labels join to.
pub proof fn lemma_dotted_labels(labels: Seq<Seq<char>>)
    ensures
        dotted(label_bytes(labels)) == join(labels, '.'),
    decreases labels.len(),
{
    let encoded = label_bytes(labels);
    if labels.len() == 1 {
        encode_utf8_decode_utf8(labels[0]);
    } else if labels.len() > 1 {
        let init = labels.drop_last();
        lemma_dotted_labels(init);
        assert(encoded.drop_last() =~= label_bytes(init));
        assert(encoded.last() == encode_utf8(labels.last()));
        encode_utf8_decode_utf8(labels.last());
        lemma_join_push(init, labels.last(), '.');
        assert(init.push(labels.last()) =~= labels);
    }
}

/// A name that can be put on the wire whole: it is the root, or none of
/// its labels is empty.
pub open spec fn reads_back(name: Seq<char>) -> bool {
    wire_name(name) is Some && (name.len() > 0 ==> labels_filled(split(name, '.')))
}

/// A name that was put on the wire at `offset` is read back as it was.
pub proof fn lemma_name_reads_back(bytes: Seq<u8>, offset: int, name: Seq<char>)
    requires
        0 <= offset,
        reads_back(name),
        offset + wire_name(name)->0.len() <= bytes.len(),
        bytes.subrange(offset, offset + wire_name(name)->0.len()) == wire_name(name)->0,
    ensures
        scan_name(bytes, offset) is Ok,
        dotted(scan_name(bytes, offset)->Ok_0.0) == name,
        scan_name(bytes, offset)->Ok_0.1 == offset + wire_name(name)->0.len(),
{
    if name.len() == 0 {
        let none = Seq::<Seq<char>>::empty();
        assert(wire_labels(none) + seq![0u8] =~= seq![0u8]);
        lemma_scan_wire(bytes, offset, none);
        assert(label_bytes(none) =~= Seq::<Seq<u8>>::empty());
    } else {
        let labels = split(name, '.');
        lemma_scan_wire(bytes, offset, labels);
        lemma_dotted_labels(labels);
        lemma_join_split(name, '.');
    }
}

/// Two bytes read back as the number that they write.
pub proof fn lemma_be16(v: u16)
    ensures
        u16_be(v).len() == 2,
        be16(u16_be(v)[0], u16_be(v)[1]) == v,
{
}

/// A response with an answer parses as a query with the identifier and the
/// question of the query that it answers, and with the response bit in its
/// flags; and between its question and its last eleven bytes it carries the
/// A record with the address and the TTL.
pub proof fn lemma_response_reads_back(query: DnsQueryView, ip: Ipv4Addr, ttl: u32)
    requires
        query.questions.len() == 1,
        reads_back(query.questions[0].name),
    ensures
        parse_spec(response_bytes(query, ip, 0, ttl)) is Ok,
        parse_spec(response_bytes(query, ip, 0, ttl))->Ok_0.id == query.id,
        parse_spec(response_bytes(query, ip, 0, ttl))->Ok_0.flags == response_flags(query.flags, 0),
        parse_spec(response_bytes(query, ip, 0, ttl))->Ok_0.questions == query.questions,
        response_flags(query.flags, 0) & 0x8000 == 0x8000,
        response_bytes(query, ip, 0, ttl) == response_header(query.id, query.flags, 0) + wire_name(
            query.questions[0].name,
        )->0 + u16_be(query.questions[0].qtype) + u16_be(query.questions[0].qclass) + a_record(
            wire_name(query.questions[0].name)->0,
            ip,
            ttl,
        ) + opt_record(),
{
    let question = query.questions[0];
    let wire = wire_name(question.name)->0;
    let w = wire.len() as int;
    let header = response_header(query.id, query.flags, 0);
    let answer = a_record(wire, ip, ttl);
    let bytes = response_bytes(query, ip, 0, ttl);
    let flags = response_flags(query.flags, 0);
    let asked = query.flags;
    let none = 0u8;
    assert(flags & 0x8000 == 0x8000) by (bit_vector)
        requires
            flags == (asked | 0x8000u16) | (none as u16),
    ;
    lemma_be16(query.id);
    lemma_be16(flags);
    lemma_be16(1);
    lemma_be16(0);
    lemma_be16(4);
    lemma_be16(question.qtype);
    lemma_be16(question.qclass);
    assert(header.len() == 12);
    assert(answer.len() == w + 14);
    assert(opt_record().len() == 11);
    assert(bytes.len() == 12 + w + 4 + w + 14 + 11);
    assert(bytes[0] == u16_be(query.id)[0] && bytes[1] == u16_be(query.id)[1]);
    assert(bytes[2] == u16_be(flags)[0] && bytes[3] == u16_be(flags)[1]);
    assert(bytes[4] == u16_be(1)[0] && bytes[5] == u16_be(1)[1]);
    assert(bytes[10] == u16_be(1)[0] && bytes[11] == u16_be(1)[1]);
    // the question
    assert(bytes.subrange(12, 12 + w) =~= wire);
    lemma_name_reads_back(bytes, 12, question.name);
    let end = 12 + w;
    assert(bytes[end] == u16_be(question.qtype)[0] && bytes[end + 1] == u16_be(question.qtype)[1]);
    assert(bytes[end + 2] == u16_be(question.qclass)[0] && bytes[end + 3] == u16_be(
        question.qclass,
    )[1]);
    // the answer, which the parser takes for the additional record
    let start = end + 4;
    assert(bytes.subrange(start, start + w + 14) =~= answer);
    assert(bytes.subrange(start, start + w) =~= wire) by {
        assert forall|k: int| 0 <= k < w implies bytes[start + k] == wire[k] by {
            assert(bytes[start + k] == answer[k]);
        }
    }
    lemma_name_reads_back(bytes, start, question.name);
    let at = start + w;
    assert(bytes[at] == answer[w] && bytes[at + 1] == answer[w + 1]);
    assert(answer[w] == u16_be(1)[0] && answer[w + 1] == u16_be(1)[1]);
    assert(bytes[at + 8] == answer[w + 8] && bytes[at + 9] == answer[w + 9]);
    assert(answer[w + 8] == u16_be(4)[0] && answer[w + 9] == u16_be(4)[1]);
    assert(scan_opt(bytes, start) == Ok::<(bool, u16), PacketError>((false, 512u16)));
    let parsed = parse_spec(bytes)->Ok_0;
    assert(parsed.questions =~= query.questions) by {
        assert(parsed.questions[0] == question);
    }
}

} // verus!
