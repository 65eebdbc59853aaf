use rustping::checksum::checksum;
use rustping::icmp::{cut_off_ipv4_header, IcmpError, Message, MessageType};
use rustping::num_serialize::{be_to_u16, u16_to_be, u32_to_be};

fn echo_message(token: [u8; 4], body: &[u8]) -> Message {
    Message {
        message_type: MessageType::Echo,
        code: 0,
        rest_of_header: token,
        body: body.to_vec(),
    }
}

#[test]
fn be_conversions_exact() {
    assert_eq!(be_to_u16(&[0x12, 0x34]), 0x1234);
    assert_eq!(u16_to_be(0x1234), [0x12, 0x34]);
    assert_eq!(u32_to_be(0x01020304), [0x01, 0x02, 0x03, 0x04]);
    assert_eq!(u32_to_be(1), [0, 0, 0, 1]);
    assert_eq!(u32_to_be(u32::MAX), [0xFF, 0xFF, 0xFF, 0xFF]);
}

#[test]
fn checksum_of_all_zero_buffer_is_ffff() {
    assert_eq!(checksum(&[0u8; 8]), 0xFFFF);
}

#[test]
fn checksum_known_vector() {
    // The classic RFC 1071 worked example.
    let data = [0x00, 0x01, 0xf2, 0x03, 0xf4, 0xf5, 0xf6, 0xf7];
    assert_eq!(checksum(&data), 0x220d);
}

#[test]
fn checksum_odd_length_pads_trailing_word() {
    // A lone trailing byte is the high-order byte of a zero-padded word.
    assert_eq!(checksum(&[0x01]), !0x0100);
    // words 0xABCD and 0xEF00 sum to 0x19ACD; the carry folds back in:
    // 0x9ACE; inverted: 0x6531.
    assert_eq!(checksum(&[0xAB, 0xCD, 0xEF]), 0x6531);
}

#[test]
fn checksum_empty_buffer() {
    assert_eq!(checksum(&[]), 0xFFFF);
}

#[test]
fn marshal_layout() {
    let m = echo_message([9, 8, 7, 6], &[1, 2, 3]);
    let bytes = m.marshal();
    assert_eq!(bytes.len(), 11);
    assert_eq!(bytes[0], 8); // Echo
    assert_eq!(bytes[1], 0);
    assert_eq!(&bytes[4..8], &[9, 8, 7, 6]);
    assert_eq!(&bytes[8..], &[1, 2, 3]);
}

#[test]
fn marshal_passes_checksum_validation() {
    let m = echo_message([1, 2, 3, 4], &[10, 20, 30, 40, 50]);
    let bytes = m.marshal();
    let cs = checksum(&bytes);
    assert!(cs == 0 || cs == 0xFFFF);
}

#[test]
fn marshal_empty_body_passes_checksum_validation() {
    let m = echo_message([0, 0, 0, 1], &[]);
    let bytes = m.marshal();
    let cs = checksum(&bytes);
    assert!(cs == 0 || cs == 0xFFFF);
}

#[test]
fn round_trip_with_body() {
    let m = echo_message([0xDE, 0xAD, 0xBE, 0xEF], &[0, 1, 2, 253, 254, 255]);
    let parsed = Message::parse(&m.marshal()).expect("round trip must parse");
    assert_eq!(parsed, m);
}

#[test]
fn round_trip_empty_body() {
    let m = Message {
        message_type: MessageType::TimestampReply,
        code: 7,
        rest_of_header: [4, 3, 2, 1],
        body: Vec::new(),
    };
    let parsed = Message::parse(&m.marshal()).expect("round trip must parse");
    assert_eq!(parsed, m);
}

#[test]
fn round_trip_large_body() {
    let body: Vec<u8> = (0..1024).map(|i| (i % 251) as u8).collect();
    let m = echo_message([1, 1, 2, 2], &body);
    let parsed = Message::parse(&m.marshal()).expect("round trip must parse");
    assert_eq!(parsed, m);
}

#[test]
fn round_trip_every_message_type() {
    for t in [
        MessageType::EchoReply,
        MessageType::DestinationUnreachable,
        MessageType::Redirect,
        MessageType::Echo,
        MessageType::RouterAdvertisement,
        MessageType::RouterSolicitation,
        MessageType::TimeExceeded,
        MessageType::ParameterProblem,
        MessageType::Timestamp,
        MessageType::TimestampReply,
        MessageType::Photuris,
        MessageType::ExtendedEchoRequest,
        MessageType::ExtendedEchoReply,
    ] {
        let m = Message {
            message_type: t,
            code: 5,
            rest_of_header: [1, 2, 3, 4],
            body: vec![42],
        };
        let parsed = Message::parse(&m.marshal()).expect("round trip must parse");
        assert_eq!(parsed, m);
    }
}

#[test]
fn parse_short_buffers_fail_too_short() {
    for len in 0..8usize {
        let buf = vec![0u8; len];
        assert_eq!(Message::parse(&buf), Err(IcmpError::TooShort));
    }
}

#[test]
fn parse_unknown_type_fails() {
    // Byte 0 is 255 (not a recognized type); the checksum field holds the
    // complement of the word sum so that validation passes first.
    let buf = [255, 0, 0x00, 0xFF, 0, 0, 0, 0];
    assert_eq!(checksum(&buf), 0);
    assert_eq!(Message::parse(&buf), Err(IcmpError::UnknownType));
}

#[test]
fn parse_detects_any_header_bit_flip() {
    let m = echo_message([0xAA, 0x55, 0x00, 0xFF], &[7, 7, 7]);
    let good = m.marshal();
    assert!(Message::parse(&good).is_ok());
    for byte in 0..8 {
        for bit in 0..8 {
            let mut bad = good.clone();
            bad[byte] ^= 1 << bit;
            assert_eq!(
                Message::parse(&bad),
                Err(IcmpError::ChecksumInvalid),
                "flip of bit {bit} in byte {byte} must be caught"
            );
        }
    }
}

#[test]
fn parse_detects_corrupt_body() {
    let m = echo_message([1, 2, 3, 4], &[8, 8, 8, 8]);
    let mut bytes = m.marshal();
    bytes[9] = bytes[9].wrapping_add(1);
    assert_eq!(Message::parse(&bytes), Err(IcmpError::ChecksumInvalid));
}

#[test]
fn ipv4_header_stripping() {
    assert_eq!(cut_off_ipv4_header(&[0u8; 19]), Err(IcmpError::MalformedPacket));
    assert_eq!(cut_off_ipv4_header(&[]), Err(IcmpError::MalformedPacket));
    assert_eq!(cut_off_ipv4_header(&[0u8; 20]), Ok(&[][..]));
    let mut datagram = vec![0u8; 20];
    datagram.extend_from_slice(&[1, 2, 3]);
    assert_eq!(cut_off_ipv4_header(&datagram), Ok(&[1u8, 2, 3][..]));
}

#[test]
fn checksum_self_inverse_on_embedded() {
    // Re-applying the checksum to a buffer that carries its own checksum
    // signals "no error".
    let m = echo_message([6, 6, 6, 6], &[1, 2, 3, 4, 5, 6, 7]);
    let bytes = m.marshal();
    let cs = checksum(&bytes);
    assert!(cs == 0x0000 || cs == 0xFFFF);
    // And parsing accepts it.
    assert!(Message::parse(&bytes).is_ok());
}
