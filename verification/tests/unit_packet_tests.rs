use rind::addr::Ipv4Addr;
use rind::packet::{
    build_response, build_response_with_code, encode_name, parse, read_name, DnsQuery, PacketError,
    Question,
};

fn header(id: u16, flags: u16, qd: u16, ar: u16) -> Vec<u8> {
    let mut v = Vec::new();
    v.extend_from_slice(&id.to_be_bytes());
    v.extend_from_slice(&flags.to_be_bytes());
    v.extend_from_slice(&qd.to_be_bytes());
    v.extend_from_slice(&[0, 0, 0, 0]);
    v.extend_from_slice(&ar.to_be_bytes());
    v
}

fn query_for(name: &str, qtype: u16) -> DnsQuery {
    DnsQuery {
        id: 0x1234,
        flags: 0x0100,
        questions: vec![Question { name: name.to_string(), qtype, qclass: 1 }],
        has_opt: false,
        opt_payload_size: 512,
    }
}

#[test]
fn test_read_name_through_parse() {
    // A name of three labels, read through parse
    let packet = [
        0x12, 0x34, // ID
        0x01, 0x00, // Flags
        0x00, 0x01, // QDCOUNT
        0x00, 0x00, // ANCOUNT
        0x00, 0x00, // NSCOUNT
        0x00, 0x00, // ARCOUNT
        3, b'w', b'w', b'w', 7, b'e', b'x', b'a', b'm', b'p', b'l', b'e', 3, b'c', b'o', b'm',
        0, // www.example.com
        0x00, 0x01, // QTYPE: A
        0x00, 0x01, // QCLASS: IN
    ];
    let result = parse(&packet);
    assert!(result.is_ok());
    let query = result.unwrap();
    assert_eq!(query.questions[0].name, "www.example.com");
}

#[test]
fn test_parse_valid_packet() {
    let packet = [
        0x12, 0x34, // ID
        0x01, 0x00, // Flags
        0x00, 0x01, // QDCOUNT
        0x00, 0x00, // ANCOUNT
        0x00, 0x00, // NSCOUNT
        0x00, 0x00, // ARCOUNT
        1, b'a', 3, b'c', b'o', b'm', 0, // QNAME: a.com
        0x00, 0x01, // QTYPE: A
        0x00, 0x01, // QCLASS: IN
    ];
    let result = parse(&packet);
    assert!(result.is_ok());
    let query = result.unwrap();
    assert_eq!(query.id, 0x1234);
    assert_eq!(query.questions[0].name, "a.com");
    assert_eq!(query.questions[0].qtype, 1);
    assert_eq!(query.questions[0].qclass, 1);
}

#[test]
fn test_parse_too_short_packet() {
    let packet = [0x01, 0x02, 0x03];
    let result = parse(&packet);
    assert!(result.is_err());
}

#[test]
fn test_build_response_basic() {
    let query = DnsQuery {
        id: 0x1234,
        flags: 0x0100,
        questions: vec![Question { name: "a.com".to_string(), qtype: 1, qclass: 1 }],
        has_opt: false,
        opt_payload_size: 512,
    };
    let ip = Ipv4Addr::new(1, 2, 3, 4);
    let response = build_response(query, ip, 0, 60, "A".to_string(), "IN".to_string());
    assert!(response.len() > 20);
    assert_eq!(response[0], 0x12);
    assert_eq!(response[1], 0x34);
}

#[test]
fn every_short_datagram_is_too_short() {
    for len in 0..12usize {
        let packet = vec![0xffu8; len];
        assert_eq!(parse(&packet).unwrap_err(), PacketError::TooShort);
    }
}

#[test]
fn question_count_other_than_one_is_unsupported() {
    for qd in [0u16, 2, 3, 0xffff] {
        let mut packet = header(7, 0x0100, qd, 0);
        packet.extend_from_slice(&[1, b'a', 0, 0, 1, 0, 1]);
        assert_eq!(parse(&packet).unwrap_err(), PacketError::Unsupported);
    }
}

#[test]
fn label_past_the_end_is_malformed() {
    let mut packet = header(7, 0x0100, 1, 0);
    packet.extend_from_slice(&[5, b'a', b'b']);
    assert_eq!(parse(&packet).unwrap_err(), PacketError::Malformed);
    // no terminating zero
    let mut packet = header(7, 0x0100, 1, 0);
    packet.extend_from_slice(&[1, b'a']);
    assert_eq!(parse(&packet).unwrap_err(), PacketError::Malformed);
    // header alone
    let packet = header(7, 0x0100, 1, 0);
    assert_eq!(parse(&packet).unwrap_err(), PacketError::Malformed);
}

#[test]
fn missing_type_and_class_is_malformed() {
    let mut packet = header(7, 0x0100, 1, 0);
    packet.extend_from_slice(&[1, b'a', 0, 0, 1, 0]);
    assert_eq!(parse(&packet).unwrap_err(), PacketError::Malformed);
}

#[test]
fn compression_pointer_is_unsupported() {
    let mut packet = header(7, 0x0100, 1, 0);
    packet.extend_from_slice(&[0xC0, 0x0C, 0, 1, 0, 1]);
    assert_eq!(parse(&packet).unwrap_err(), PacketError::Unsupported);
}

#[test]
fn label_that_is_not_utf8_is_malformed() {
    let mut packet = header(7, 0x0100, 1, 0);
    packet.extend_from_slice(&[2, 0xff, 0xfe, 0, 0, 1, 0, 1]);
    assert_eq!(parse(&packet).unwrap_err(), PacketError::Malformed);
}

#[test]
fn query_without_opt_has_default_payload_size() {
    let mut packet = header(7, 0x0100, 1, 0);
    packet.extend_from_slice(&[1, b'a', 0, 0, 1, 0, 1]);
    let query = parse(&packet).unwrap();
    assert!(!query.has_opt);
    assert_eq!(query.opt_payload_size, 512);
    assert_eq!(query.flags, 0x0100);
}

#[test]
fn opt_record_gives_payload_size() {
    let mut packet = header(7, 0x0100, 1, 1);
    packet.extend_from_slice(&[1, b'a', 0, 0, 1, 0, 1]);
    // root name, type 41, class 1232, ttl 0, rdlength 2, two bytes of data
    packet.extend_from_slice(&[0, 0, 41, 0x04, 0xD0, 0, 0, 0, 0, 0, 2, 9, 9]);
    let query = parse(&packet).unwrap();
    assert!(query.has_opt);
    assert_eq!(query.opt_payload_size, 1232);
}

#[test]
fn additional_record_of_another_type_is_no_opt() {
    let mut packet = header(7, 0x0100, 1, 1);
    packet.extend_from_slice(&[1, b'a', 0, 0, 1, 0, 1]);
    packet.extend_from_slice(&[0, 0, 16, 0x04, 0xD0, 0, 0, 0, 0, 0, 0]);
    let query = parse(&packet).unwrap();
    assert!(!query.has_opt);
    assert_eq!(query.opt_payload_size, 512);
}

#[test]
fn truncated_opt_record_is_malformed() {
    let mut packet = header(7, 0x0100, 1, 1);
    packet.extend_from_slice(&[1, b'a', 0, 0, 1, 0, 1]);
    packet.extend_from_slice(&[0, 0, 41, 0x10, 0x00]);
    assert_eq!(parse(&packet).unwrap_err(), PacketError::Malformed);
    // data shorter than rdlength says
    let mut packet = header(7, 0x0100, 1, 1);
    packet.extend_from_slice(&[1, b'a', 0, 0, 1, 0, 1]);
    packet.extend_from_slice(&[0, 0, 41, 0x10, 0x00, 0, 0, 0, 0, 0, 3, 1]);
    assert_eq!(parse(&packet).unwrap_err(), PacketError::Malformed);
}

#[test]
fn read_name_gives_name_and_next_offset() {
    let bytes = [9u8, 9, 3, b'f', b'o', b'o', 2, b'd', b'e', 0, 7];
    let (name, end) = read_name(&bytes, 2).unwrap();
    assert_eq!(name, "foo.de");
    assert_eq!(end, 10);
    let (root, end) = read_name(&[0u8], 0).unwrap();
    assert_eq!(root, "");
    assert_eq!(end, 1);
    assert_eq!(read_name(&bytes, 100).unwrap_err(), PacketError::Malformed);
}

#[test]
fn encode_name_writes_labels() {
    assert_eq!(encode_name("a.com").unwrap(), vec![1, b'a', 3, b'c', b'o', b'm', 0]);
    assert_eq!(encode_name("").unwrap(), vec![0]);
    let longest = "a".repeat(63);
    let encoded = encode_name(&longest).unwrap();
    assert_eq!(encoded[0], 63);
    assert_eq!(encoded.len(), 65);
}

#[test]
fn encode_name_rejects_long_label_and_long_name() {
    assert!(encode_name(&"a".repeat(64)).is_none());
    // four labels of 63 bytes: 4 * 64 + 1 = 257 bytes
    let label = "b".repeat(63);
    let name = format!("{}.{}.{}.{}", label, label, label, label);
    assert!(encode_name(&name).is_none());
    // 253 characters encode to exactly 255 bytes
    let fits = format!("{}.{}.{}.{}", label, label, label, "c".repeat(61));
    assert_eq!(encode_name(&fits).unwrap().len(), 255);
    let too_long = format!("{}.{}.{}.{}", label, label, label, "c".repeat(62));
    assert!(encode_name(&too_long).is_none());
}

#[test]
fn response_with_answer_has_exact_bytes() {
    let query = query_for("a.com", 1);
    let response =
        build_response(query, Ipv4Addr::new(93, 184, 216, 34), 0, 300, "A".into(), "IN".into());
    let expected: Vec<u8> = vec![
        0x12, 0x34, // id
        0x81, 0x00, // flags with the response bit
        0, 1, // qdcount
        0, 1, // ancount
        0, 0, // nscount
        0, 1, // arcount
        1, b'a', 3, b'c', b'o', b'm', 0, 0, 1, 0, 1, // question
        1, b'a', 3, b'c', b'o', b'm', 0, 0, 1, 0, 1, // answer name, type, class
        0, 0, 0x01, 0x2C, // ttl 300
        0, 4, 0x5D, 0xB8, 0xD8, 0x22, // rdata
        0, 0, 41, 0x10, 0x00, 0, 0, 0, 0, 0, 0, // OPT
    ];
    assert_eq!(response, expected);
}

#[test]
fn response_without_answer_has_exact_bytes() {
    let query = query_for("a.com", 1);
    let (response, code) = build_response_with_code(&query, Ipv4Addr::new(0, 0, 0, 0), 3, 60);
    let expected: Vec<u8> = vec![
        0x12, 0x34, 0x81, 0x03, 0, 1, 0, 0, 0, 0, 0, 1, // header
        1, b'a', 3, b'c', b'o', b'm', 0, 0, 1, 0, 1, // question
        0, 0, 41, 0x10, 0x00, 0, 0, 0, 0, 0, 0, // OPT
    ];
    assert_eq!(response, expected);
    assert_eq!(code, 3);
}

#[test]
fn name_that_cannot_be_encoded_gives_server_failure() {
    let query = query_for(&"x".repeat(64), 1);
    let (response, code) = build_response_with_code(&query, Ipv4Addr::new(1, 2, 3, 4), 0, 60);
    assert_eq!(code, 2);
    let expected: Vec<u8> = vec![
        0x12, 0x34, 0x81, 0x02, 0, 1, 0, 0, 0, 0, 0, 1, // header
        0, 0, 41, 0x10, 0x00, 0, 0, 0, 0, 0, 0, // OPT
    ];
    assert_eq!(response, expected);
}

#[test]
fn parse_reads_back_what_was_asked() {
    let mut packet = header(0xBEEF, 0x0100, 1, 0);
    packet.extend_from_slice(&encode_name("www.example.org").unwrap());
    packet.extend_from_slice(&[0, 28, 0, 1]);
    let query = parse(&packet).unwrap();
    assert_eq!(query.id, 0xBEEF);
    assert_eq!(query.questions.len(), 1);
    assert_eq!(query.questions[0].name, "www.example.org");
    assert_eq!(query.questions[0].qtype, 28);
}

#[test]
fn response_parses_back_with_the_id_and_the_response_bit() {
    let mut packet = header(0x4242, 0x0100, 1, 0);
    packet.extend_from_slice(&encode_name("example.com").unwrap());
    packet.extend_from_slice(&[0, 1, 0, 1]);
    let asked = parse(&packet).unwrap();
    let response =
        build_response(asked, Ipv4Addr::new(93, 184, 216, 34), 0, 300, "A".into(), "IN".into());
    let read = parse(&response).unwrap();
    assert_eq!(read.id, 0x4242);
    assert_eq!(read.flags & 0x8000, 0x8000);
    assert_eq!(read.questions[0].name, "example.com");
    let name_len = encode_name("example.com").unwrap().len();
    let answer = 12 + name_len + 4 + name_len;
    assert_eq!(&response[answer + 4..answer + 8], &300u32.to_be_bytes());
    assert_eq!(&response[answer + 10..answer + 14], &[93, 184, 216, 34]);
}
