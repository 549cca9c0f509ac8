use wlmatrix::transport::{DecodeError, P2PTransportPacket};

#[test]
fn packet_fields_are_decoded() {
    let bytes = [
        0x0C, 0x03, 0x00, 0x02, 0x12, 0x34, 0x56, 0x78, 0x01, 0x02, 0x00, 0x00, 0xAA, 0xBB,
    ];
    let p = P2PTransportPacket::parse(&bytes).unwrap();
    assert_eq!(p.op_code(), 3);
    assert_eq!(p.sequence_number(), 0x12345678);
    assert_eq!(p.tlvs(), &[0x01, 0x02, 0x00, 0x00]);
    assert_eq!(p.payload(), &[0xAA, 0xBB]);
    assert_eq!(p.payload_length(), 2);
    assert_eq!(P2PTransportPacket::extract_payload_length(&bytes), Ok(2));
    assert_eq!(p.to_bytes(), bytes.to_vec());
}

#[test]
fn short_input_is_a_truncated_header() {
    assert_eq!(
        P2PTransportPacket::parse(&[0x08, 0x00, 0x00, 0x00, 0, 0, 0]).unwrap_err(),
        DecodeError::TruncatedHeader
    );
    assert_eq!(
        P2PTransportPacket::extract_payload_length(&[0x08]),
        Err(DecodeError::TruncatedHeader)
    );
}

#[test]
fn header_length_below_eight_is_invalid() {
    assert_eq!(
        P2PTransportPacket::parse(&[0x07, 0x00, 0x00, 0x00, 0, 0, 0, 0]).unwrap_err(),
        DecodeError::InvalidHeaderLength
    );
}

#[test]
fn reserved_flags_are_refused() {
    assert_eq!(
        P2PTransportPacket::parse(&[0x08, 0x04, 0x00, 0x00, 0, 0, 0, 0]).unwrap_err(),
        DecodeError::ReservedOpCode
    );
}

#[test]
fn lengths_must_add_up() {
    assert_eq!(
        P2PTransportPacket::parse(&[0x08, 0x00, 0x00, 0x01, 0, 0, 0, 0]).unwrap_err(),
        DecodeError::LengthMismatch
    );
    assert_eq!(
        P2PTransportPacket::parse(&[0x0C, 0x00, 0x00, 0x00, 0, 0, 0, 0]).unwrap_err(),
        DecodeError::LengthMismatch
    );
}

#[test]
fn bare_header_is_a_packet_without_payload() {
    let bytes = [0x08, 0x01, 0x00, 0x00, 0x00, 0x00, 0x01, 0x00];
    let p = P2PTransportPacket::parse(&bytes).unwrap();
    assert_eq!(p.op_code(), 1);
    assert_eq!(p.sequence_number(), 256);
    assert!(p.payload().is_empty());
    assert_eq!(p.to_bytes(), bytes.to_vec());
}
