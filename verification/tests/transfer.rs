use tunnel_core::byte_shift::ByteShifter;
use tunnel_core::destination::Destination;
use tunnel_core::encode::Encode;
use tunnel_core::tunnel_header::{decode_request_header, encode_request_header};
use tunnel_core::wire::ParseError;

#[test]
fn encode_test() {
    let shifter = ByteShifter::new(10);

    assert_eq!(shifter.encode(0), 10);
    assert_eq!(shifter.encode(1), 11);
    assert_eq!(shifter.encode(10), 20);
    assert_eq!(shifter.encode(245), 255);
    assert_eq!(shifter.encode(246), 0);
    assert_eq!(shifter.encode(250), 4);
    assert_eq!(shifter.encode(255), 9);
}

#[test]
fn decode_test() {
    let shifter = ByteShifter::new(10);

    assert_eq!(shifter.decode(255), 245);
    assert_eq!(shifter.decode(254), 244);
    assert_eq!(shifter.decode(11), 1);
    assert_eq!(shifter.decode(10), 0);
    assert_eq!(shifter.decode(9), 255);
    assert_eq!(shifter.decode(8), 254);
    assert_eq!(shifter.decode(1), 247);
    assert_eq!(shifter.decode(0), 246);
}

#[test]
fn shift_round_trip() {
    let shifter = ByteShifter::new(123);
    for b in 0..=255u8 {
        assert_eq!(shifter.decode(shifter.encode(b)), b);
        assert_eq!(shifter.encode(shifter.decode(b)), b);
    }
}

#[test]
fn decode_request_header_test() {
    let request_header_data = vec![
        0, 80, // port 80
        0, 0, 0x0, 0x4, 122, 46, 99, 110, // "z.cn"
    ];

    let (domain, port) = decode_request_header(&request_header_data).unwrap();
    assert_eq!(domain, "z.cn");
    assert_eq!(port, 80);
}

#[test]
fn tunnel_header_round_trip() {
    let dst = Destination::new(b"example.org".to_vec(), 443);
    let buf = encode_request_header(&dst);
    assert_eq!(&buf[..6], &[1, 187, 0, 0, 0, 11]);
    let (domain, port) = decode_request_header(&buf).unwrap();
    assert_eq!(domain, "example.org");
    assert_eq!(port, 443);
}

#[test]
fn tunnel_header_too_short_is_an_error() {
    assert_eq!(decode_request_header(&[0, 80, 0]), Err(ParseError::Truncated));
    // declared domain length past the end of the buffer
    assert_eq!(
        decode_request_header(&[0, 80, 0, 0, 0, 9, 122]),
        Err(ParseError::Truncated)
    );
}

#[test]
fn destination_accessors() {
    let dst = Destination::new(b"z.cn".to_vec(), 80);
    assert_eq!(dst.domain(), "z.cn");
    assert_eq!(dst.port(), 80);
    assert_eq!(dst.to_str(), "z.cn:80");
}

#[test]
fn destination_large_port_formats_in_decimal() {
    let dst = Destination::new(b"a".to_vec(), 65535);
    assert_eq!(dst.to_str(), "a:65535");
}

#[test]
fn default_destination_is_empty() {
    let dst = Destination::default();
    assert_eq!(dst.domain(), "");
    assert_eq!(dst.port(), 0);
    assert_eq!(dst.to_str(), ":0");
}

#[test]
fn encode_copier_shifts_and_counts() {
    let mut copier = Encode::new(10);
    assert!(copier.needs_read());
    assert!(!copier.finished());

    copier.absorb_read(&[0, 1, 250]);
    assert!(!copier.needs_read());
    assert_eq!(copier.next_chunk(), vec![10, 11, 4]);

    // a partial write leaves the tail pending
    copier.advance_written(2);
    assert_eq!(copier.next_chunk(), vec![4]);
    copier.advance_written(1);
    assert!(copier.needs_read());
    assert_eq!(copier.amount(), 3);

    // end-of-input finishes the copy
    copier.absorb_read(&[]);
    assert!(copier.finished());
    assert_eq!(copier.amount(), 3);
}
