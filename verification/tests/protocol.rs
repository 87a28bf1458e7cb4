use rummy::protocol::{MsgError, MsgType, Packet, PacketHeader, HEADER_SIZE, VERSION};

fn encode_packet(payload: &[u8], session_id: u64) -> Vec<u8> {
    let header = PacketHeader::from_payload(payload, session_id);
    let packet = Packet::new(header, payload.to_vec());
    packet.to_bytes()
}

#[test]
fn round_trip_ping() {
    let bytes = encode_packet(b"ping", 42);
    assert_eq!(bytes.len(), HEADER_SIZE + 4);
    let decoded = Packet::from_bytes(&bytes).expect("valid packet must decode");
    assert_eq!(decoded.payload, b"ping".to_vec());
    assert_eq!(decoded.header.session_id, 42);
    assert_eq!(decoded.header.payload_len, 4);
    assert_eq!(decoded.header.magic, *b"rum3");
    assert_eq!(decoded.header.version, VERSION);
    assert_eq!(decoded.header.msg_type, MsgType::Call);
}

#[test]
fn round_trip_empty_payload() {
    let bytes = encode_packet(b"", 0);
    assert_eq!(bytes.len(), HEADER_SIZE);
    let decoded = Packet::from_bytes(&bytes).expect("empty payload must decode");
    assert_eq!(decoded.payload, Vec::<u8>::new());
    assert_eq!(decoded.header.payload_len, 0);
}

#[test]
fn header_round_trip_preserves_fields() {
    let header = PacketHeader::from_payload(b"abc", 7);
    let bytes = header.to_bytes();
    assert_eq!(bytes.len(), HEADER_SIZE);
    let decoded = PacketHeader::from_bytes(&bytes).expect("header must decode");
    assert_eq!(decoded.magic, header.magic);
    assert_eq!(decoded.version, header.version);
    assert_eq!(decoded.msg_type, header.msg_type);
    assert_eq!(decoded.reserved, header.reserved);
    assert_eq!(decoded.payload_len, header.payload_len);
    assert_eq!(decoded.session_id, header.session_id);
    assert_eq!(decoded.timestamp, header.timestamp);
    assert_eq!(decoded.checksum, header.checksum);
    assert_eq!(decoded._padding, header._padding);
}

#[test]
fn checksum_is_standard_crc32() {
    // CRC32 of the standard check input "123456789" is 0xCBF43926.
    let header = PacketHeader::from_payload(b"123456789", 1);
    assert_eq!(header.checksum, 0xCBF4_3926);
    assert_eq!(header.checksum, crc32fast::hash(b"123456789"));
}

#[test]
fn corruption_at_offset_65_is_checksum_mismatch() {
    let mut bytes = encode_packet(b"abcd", 0);
    bytes[65] ^= 0xff;
    let err = Packet::from_bytes(&bytes).expect_err("corrupted payload must fail");
    assert_eq!(err, MsgError::ChecksumMismatch);
}

#[test]
fn corruption_of_any_payload_byte_is_detected() {
    let payload = b"some payload bytes";
    let bytes = encode_packet(payload, 3);
    for offset in HEADER_SIZE..bytes.len() {
        let mut corrupted = bytes.clone();
        corrupted[offset] ^= 0x01;
        let err = Packet::from_bytes(&corrupted).expect_err("flip must fail");
        assert_eq!(err, MsgError::ChecksumMismatch, "offset {}", offset);
    }
}

#[test]
fn truncated_to_10_bytes_is_invalid_header() {
    let bytes = encode_packet(b"payload", 9);
    for cut in [0, 10, 63] {
        let err = Packet::from_bytes(&bytes[0..cut]).expect_err("short buffer must fail");
        assert_eq!(err, MsgError::InvalidHeader, "cut {}", cut);
    }
}

#[test]
fn header_alone_with_declared_payload_is_invalid_payload() {
    let bytes = encode_packet(b"xy", 1);
    let err = Packet::from_bytes(&bytes[0..HEADER_SIZE]).expect_err("missing payload must fail");
    assert_eq!(err, MsgError::InvalidPayload);
}

#[test]
fn wrong_magic_is_invalid_magic() {
    // Length and checksum stay correct; only the magic is off.
    let mut bytes = encode_packet(b"hello", 5);
    bytes[0] = b'x';
    let err = Packet::from_bytes(&bytes).expect_err("wrong magic must fail");
    assert_eq!(err, MsgError::InvalidMagic);
}

#[test]
fn wrong_version_is_unsupported_version() {
    let mut bytes = encode_packet(b"hello", 5);
    bytes[4] = VERSION + 1;
    let err = Packet::from_bytes(&bytes).expect_err("wrong version must fail");
    assert_eq!(err, MsgError::UnsupportedVersion);
}

#[test]
fn unknown_msg_type_is_invalid_header() {
    let mut bytes = encode_packet(b"hello", 5);
    bytes[5] = 7;
    let err = Packet::from_bytes(&bytes).expect_err("unknown msg type must fail");
    assert_eq!(err, MsgError::InvalidHeader);
}

#[test]
fn magic_is_checked_before_version_and_checksum() {
    // Wrong magic, wrong version and wrong checksum at once: the magic is
    // reported, identity before integrity.
    let mut bytes = encode_packet(b"hello", 5);
    bytes[0] = b'x';
    bytes[4] = 9;
    bytes[65] ^= 0xff;
    let err = Packet::from_bytes(&bytes).expect_err("must fail");
    assert_eq!(err, MsgError::InvalidMagic);
}

#[test]
fn msg_type_bytes_round_trip() {
    for (t, b) in [
        (MsgType::Call, 0u8),
        (MsgType::Reply, 1),
        (MsgType::Error, 2),
        (MsgType::Auth, 3),
    ] {
        assert_eq!(t.to_u8(), b);
        assert_eq!(MsgType::from_u8(b), Some(t));
    }
    assert_eq!(MsgType::from_u8(4), None);
    assert_eq!(MsgType::from_u8(255), None);
}

#[test]
fn wire_layout_is_little_endian_at_fixed_offsets() {
    let header = PacketHeader::from_payload(b"Q", 0x1122_3344_5566_7788);
    let bytes = header.to_bytes();
    assert_eq!(&bytes[0..4], b"rum3");
    assert_eq!(bytes[4], 1);
    assert_eq!(bytes[5], 0);
    assert_eq!(&bytes[6..16], &[0u8; 10]);
    assert_eq!(&bytes[16..20], &[1, 0, 0, 0]);
    assert_eq!(
        &bytes[20..28],
        &[0x88, 0x77, 0x66, 0x55, 0x44, 0x33, 0x22, 0x11]
    );
    assert_eq!(&bytes[36..40], &crc32fast::hash(b"Q").to_le_bytes());
    assert_eq!(&bytes[40..64], &[0u8; 24]);
}
