use tunnel_core::request_message::RequestMessage;
use tunnel_core::resolve::resolve_response;
use tunnel_core::utils::{domain_to_qname, qname_to_domain};
use tunnel_core::wire::ParseError;
use tunnel_core::ResponseMessage;

#[test]
fn to_bytes_test() {
    let mut bytes: Vec<u8> = vec![];

    let msg = RequestMessage::new("baidu.com");
    msg.to_bytes(&mut bytes);

    let expected = [
        209, 183, 1, 0, 0, 1, 0, 0, 0, 0, 0, 0, // header
        5, 98, 97, 105, 100, 117, 3, 99, 111, 109, 0, 0, 1, 0, 1, // question
    ];

    for (i, b) in bytes.iter().enumerate() {
        assert_eq!(*b, expected[i]);
    }
    assert_eq!(bytes.len(), expected.len());
}

#[test]
fn test_no_answers() {
    // response of "z.cnn"
    let resp = &[
        209, 183, 129, 131, 0, 1, 0, 0, 0, 1, 0, 0, // header
        1, 122, 3, 99, 110, 110, 0, 0, 1, 0, 1, 0, 0, 6, 0, 1, 0, 0, 2, 58, 0, 64, 1, 97, 12,
        114, 111, 111, 116, 45, 115, 101, 114, 118, 101, 114, 115, 3, 110, 101, 116, 0, 5, 110,
        115, 116, 108, 100, 12, 118, 101, 114, 105, 115, 105, 103, 110, 45, 103, 114, 115, 3, 99,
        111, 109, 0, 120, 164, 113, 48, 0, 0, 7, 8, 0, 0, 3, 132, 0, 9, 58, 128, 0, 1, 81, 128,
    ];

    let resp = ResponseMessage::parse_response(resp).unwrap();
    assert_eq!(None, resp.first_address());
}

#[test]
fn zero_answers_resolve_to_no_answer() {
    let resp = &[
        209, 183, 129, 131, 0, 1, 0, 0, 0, 1, 0, 0, 1, 122, 3, 99, 110, 110, 0, 0, 1, 0, 1, 0, 0,
        6, 0, 1, 0, 0, 2, 58, 0, 64, 1, 97, 12, 114, 111, 111, 116, 45, 115, 101, 114, 118, 101,
        114, 115, 3, 110, 101, 116, 0, 5, 110, 115, 116, 108, 100, 12, 118, 101, 114, 105, 115,
        105, 103, 110, 45, 103, 114, 115, 3, 99, 111, 109, 0, 120, 164, 113, 48, 0, 0, 7, 8, 0, 0,
        3, 132, 0, 9, 58, 128, 0, 1, 81, 128,
    ];
    let msg = ResponseMessage::parse_response(resp).unwrap();
    assert_eq!(None, msg.last_address());
    assert_eq!(None, resolve_response(resp));
}

#[test]
fn qname_domain_round_trip() {
    let domain = "www.example.com";
    let qname = domain_to_qname(domain);
    assert_eq!(
        qname,
        vec![3, 119, 119, 119, 7, 101, 120, 97, 109, 112, 108, 101, 3, 99, 111, 109, 0]
    );
    let back = qname_to_domain(qname.as_slice());
    assert_eq!(back, domain);
}

#[test]
fn qname_domain_round_trip_short_labels() {
    let domain = "z.cn";
    let back = qname_to_domain(domain_to_qname(domain).as_slice());
    assert_eq!(back, domain);
}

#[test]
fn qname_invalid_utf8_is_replaced() {
    // a label of one invalid byte decodes to the replacement character
    let qname = vec![1u8, 0xFF, 0];
    let domain = qname_to_domain(qname.as_slice());
    assert_eq!(domain, "\u{FFFD}");
}

#[test]
fn truncated_response_is_an_error() {
    assert!(matches!(
        ResponseMessage::parse_response(&[1, 2, 3]),
        Err(ParseError::Truncated)
    ));
}

#[test]
fn overrunning_label_is_an_error() {
    // header declares one answer; the record's in-place name has a label
    // length that runs past the buffer
    let mut buf = vec![209, 183, 0, 0, 0, 0, 0, 1, 0, 0, 0, 0];
    buf.extend_from_slice(&[63, 97, 0]);
    assert!(matches!(
        ResponseMessage::parse_response(buf.as_slice()),
        Err(ParseError::Truncated)
    ));
}

/// A compressed name whose 14-bit pointer offset needs the high-byte shift:
/// the name sits at offset 300, and a decoy name sits at offset 45 where a
/// decoder that merely added the two pointer bytes would look.
#[test]
fn decompression_high_offset() {
    let mut buf = vec![0u8; 305];
    // header: id, flags, qdcount=0, ancount=1, nscount=0, arcount=0
    let header = [209, 183, 128, 0, 0, 0, 0, 1, 0, 0, 0, 0];
    buf[..12].copy_from_slice(&header);
    // the answer record starts right after the header: a pointer to 300
    // (0xC0 | 1, then 44), type 1, class 1, ttl 0, rdlength 4, 4 data bytes
    let record = [193, 44, 0, 1, 0, 1, 0, 0, 0, 0, 0, 4, 93, 184, 216, 34];
    buf[12..28].copy_from_slice(&record);
    // decoy name at offset 45 = (193 & 63) + 44: "xyz"
    buf[45..50].copy_from_slice(&[3, 120, 121, 122, 0]);
    // real name at offset 300: "abc"
    buf[300..305].copy_from_slice(&[3, 97, 98, 99, 0]);

    let msg = ResponseMessage::parse_response(buf.as_slice()).unwrap();
    let records = msg.answer_records();
    assert_eq!(records.len(), 1);
    assert_eq!(records[0].domain, "abc");
    assert_eq!(msg.last_address(), Some([93, 184, 216, 34]));
    assert_eq!(resolve_response(buf.as_slice()), Some([93, 184, 216, 34]));
}

#[test]
fn last_answer_wins() {
    // two answers with in-place names; the engine prefers the last one
    let mut buf = vec![209, 183, 128, 0, 0, 0, 0, 2, 0, 0, 0, 0];
    // first record: name "a", address 1.1.1.1
    buf.extend_from_slice(&[1, 97, 0, 0, 1, 0, 1, 0, 0, 0, 0, 0, 4, 1, 1, 1, 1]);
    // second record: name "b", address 2.2.2.2
    buf.extend_from_slice(&[1, 98, 0, 0, 1, 0, 1, 0, 0, 0, 0, 0, 4, 2, 2, 2, 2]);
    let msg = ResponseMessage::parse_response(buf.as_slice()).unwrap();
    assert_eq!(msg.first_address(), Some([1, 1, 1, 1]));
    assert_eq!(msg.last_address(), Some([2, 2, 2, 2]));
    let addrs = msg.addresses();
    assert_eq!(addrs, vec![Some([1, 1, 1, 1]), Some([2, 2, 2, 2])]);
    assert_eq!(resolve_response(buf.as_slice()), Some([2, 2, 2, 2]));
}

#[test]
fn short_record_data_has_no_address() {
    // one answer whose data is shorter than an address
    let mut buf = vec![209, 183, 128, 0, 0, 0, 0, 1, 0, 0, 0, 0];
    buf.extend_from_slice(&[1, 97, 0, 0, 1, 0, 1, 0, 0, 0, 0, 0, 2, 9, 9]);
    let msg = ResponseMessage::parse_response(buf.as_slice()).unwrap();
    assert_eq!(msg.first_address(), None);
    assert_eq!(msg.last_address(), None);
    assert_eq!(msg.addresses(), vec![None]);
    assert_eq!(resolve_response(buf.as_slice()), None);
}

#[test]
fn malformed_buffer_resolves_to_no_answer() {
    assert_eq!(resolve_response(&[7, 7, 7]), None);
}

#[test]
fn encode_request_matches_message_bytes() {
    let direct = tunnel_core::encode_request("baidu.com");
    let mut via_message: Vec<u8> = vec![];
    RequestMessage::new("baidu.com").to_bytes(&mut via_message);
    assert_eq!(direct, via_message);
    assert!(tunnel_core::decode_response(&direct).is_ok());
}
