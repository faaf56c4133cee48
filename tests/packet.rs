use ruping::packet::{DecodeError, IcmpPacket, ICMPV6_ECHO_REQUEST, ICMP_ECHO_REQUEST};

#[test]
fn test_icmp_packet_creation() {
    let packet = IcmpPacket::new_echo_request(1234, 1, 32, false);
    assert_eq!(packet.icmp_type, ICMP_ECHO_REQUEST);
    assert_eq!(packet.code, 0);
    assert_eq!(packet.identifier, 1234);
    assert_eq!(packet.sequence, 1);
    assert_eq!(packet.payload.len(), 32);
}

#[test]
fn test_icmp_packet_serialization() {
    let packet = IcmpPacket::new_echo_request(1234, 1, 32, false);
    let bytes = packet.to_bytes();
    let parsed = IcmpPacket::from_bytes(&bytes).unwrap();

    assert_eq!(packet.icmp_type, parsed.icmp_type);
    assert_eq!(packet.code, parsed.code);
    assert_eq!(packet.identifier, parsed.identifier);
    assert_eq!(packet.sequence, parsed.sequence);
    assert_eq!(packet.payload, parsed.payload);
}

#[test]
fn test_checksum_calculation() {
    let mut packet = IcmpPacket::new_echo_request(1234, 1, 32, false);
    packet.calculate_checksum();
    assert!(packet.verify_checksum());
}

#[test]
fn echo_request_has_exact_checksum_and_layout() {
    let packet = IcmpPacket::new_echo_request(1234, 1, 32, false);
    assert_eq!(packet.checksum, 0xDD16);
    let bytes = packet.to_bytes();
    assert_eq!(bytes.len(), 40);
    assert_eq!(&bytes[..8], &[8, 0, 0xDD, 0x16, 0x04, 0xD2, 0x00, 0x01]);
    assert!(bytes[8..].iter().all(|&b| b == 0x61));
}

#[test]
fn ipv6_echo_request_type() {
    let packet = IcmpPacket::new_echo_request(7, 9, 0, true);
    assert_eq!(packet.icmp_type, ICMPV6_ECHO_REQUEST);
    assert!(packet.payload.is_empty());
    assert!(packet.verify_checksum());
}

#[test]
fn round_trip_for_several_payload_sizes() {
    for size in [0usize, 1, 2, 7, 31, 32, 33, 1000, 65500] {
        let packet = IcmpPacket::new_echo_request(0xBEEF, 0xFFFF, size, false);
        let bytes = packet.to_bytes();
        let parsed = IcmpPacket::from_bytes(&bytes).unwrap();
        assert_eq!(parsed.icmp_type, ICMP_ECHO_REQUEST);
        assert_eq!(parsed.code, 0);
        assert_eq!(parsed.checksum, packet.checksum);
        assert_eq!(parsed.identifier, 0xBEEF);
        assert_eq!(parsed.sequence, 0xFFFF);
        assert_eq!(parsed.payload, packet.payload);
        assert_eq!(parsed.payload.len(), size);
        assert!(parsed.verify_checksum());
        assert_eq!(IcmpPacket::compute_checksum(&bytes), 0);
    }
}

#[test]
fn every_single_bit_flip_is_detected() {
    let packet = IcmpPacket::new_echo_request(1234, 1, 33, false);
    let bytes = packet.to_bytes();
    for pos in 0..bytes.len() {
        for bit in 0..8 {
            let mut flipped = bytes.clone();
            flipped[pos] ^= 1u8 << bit;
            assert_ne!(IcmpPacket::compute_checksum(&flipped), 0);
            let decoded = IcmpPacket::from_bytes(&flipped).unwrap();
            assert!(!decoded.verify_checksum());
        }
    }
}

#[test]
fn checksum_of_small_inputs() {
    assert_eq!(IcmpPacket::compute_checksum(&[]), 0xFFFF);
    assert_eq!(IcmpPacket::compute_checksum(&[0x01]), 0xFEFF);
    assert_eq!(IcmpPacket::compute_checksum(&[0x12, 0x34]), 0xEDCB);
    assert_eq!(IcmpPacket::compute_checksum(&[0xFF, 0xFF, 0x00, 0x01]), 0xFFFE);
}

#[test]
fn decode_rejects_fewer_than_eight_bytes() {
    assert_eq!(
        IcmpPacket::from_bytes(&[0, 0, 0, 0, 0, 0, 0]).unwrap_err(),
        DecodeError::TooShort
    );
    assert_eq!(IcmpPacket::from_bytes(&[]).unwrap_err(), DecodeError::TooShort);
    let p = IcmpPacket::from_bytes(&[0, 3, 0x12, 0x34, 0xAB, 0xCD, 0x00, 0x2A]).unwrap();
    assert_eq!(p.icmp_type, 0);
    assert_eq!(p.code, 3);
    assert_eq!(p.checksum, 0x1234);
    assert_eq!(p.identifier, 0xABCD);
    assert_eq!(p.sequence, 42);
    assert!(p.payload.is_empty());
}

#[test]
fn echo_reply_type_by_family() {
    let mut p = IcmpPacket::new_echo_request(1, 1, 0, false);
    assert!(!p.is_echo_reply(false));
    p.icmp_type = 0;
    p.code = 5;
    assert!(p.is_echo_reply(false));
    assert!(!p.is_echo_reply(true));
    p.icmp_type = 129;
    assert!(p.is_echo_reply(true));
    assert!(!p.is_echo_reply(false));
}
