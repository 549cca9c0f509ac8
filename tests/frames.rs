use wlmatrix::command::P2PCommand;
use wlmatrix::parser::{FrameError, P2PCommandParser, MAX_PAYLOAD_SIZE};
use wlmatrix::transport::{DecodeError, P2PTransportPacket};

const FOO_AND_NONCE: [u8; 38] = [
    0x04, 0x00, 0x00, 0x00, 0x66, 0x6F, 0x6F, 0x00, 0x10, 0x00, 0x00, 0x00, 0xA5, 0x7E, 0x11, 0x64,
    0x75, 0xCA, 0x7C, 0x41, 0x91, 0x70, 0x5B, 0x0B, 0x60, 0x45, 0xC4, 0xA8, 0x00, 0x00, 0x00, 0x00,
    0x00, 0x00, 0x00, 0x00, 0x00, 0x00,
];

/// A transport packet of sixteen bytes: header length 8, no flags, payload
/// length 8, sequence number 0x01020304, then eight payload bytes.
const SIXTEEN_BYTE_PACKET: [u8; 16] = [
    0x08, 0x00, 0x00, 0x08, 0x01, 0x02, 0x03, 0x04, 0xA1, 0xA2, 0xA3, 0xA4, 0xA5, 0xA6, 0xA7, 0xA8,
];

fn frame(payload: &[u8]) -> Vec<u8> {
    let mut out = (payload.len() as u32).to_le_bytes().to_vec();
    out.extend_from_slice(payload);
    out
}

#[test]
fn foo_then_nonce_in_one_read() {
    let mut parser = P2PCommandParser::new();
    let result = parser.parse_message(&FOO_AND_NONCE, true).unwrap();
    assert_eq!(result.len(), 2);
    assert!(result[0].is_foo());
    assert_eq!(result[1].nonce_bytes().unwrap(), &FOO_AND_NONCE[12..28]);
    assert_eq!(&result[1].nonce_bytes().unwrap()[..4], &[0xA5, 0x7E, 0x11, 0x64]);
    // the ten trailing zero bytes are two empty frames, which are dropped,
    // and the first two bytes of a third length prefix
    assert_eq!(parser.incomplete(), &[0u8, 0u8]);
}

#[test]
fn truncated_length_prefix_is_held_back() {
    let mut parser = P2PCommandParser::new();
    let result = parser.parse_message(&[0x04, 0x00], false).unwrap();
    assert!(result.is_empty());
    assert_eq!(parser.incomplete(), &[0x04, 0x00]);
    let result = parser.parse_message(&[0x00, 0x00, 0x66, 0x6F, 0x6F, 0x00], false).unwrap();
    assert_eq!(result.len(), 1);
    assert!(result[0].is_foo());
    assert!(parser.incomplete().is_empty());
}

#[test]
fn oversize_frame_ends_the_stream() {
    let mut parser = P2PCommandParser::new();
    let mut input = vec![0xFF, 0xFF, 0x00, 0x00];
    input.extend_from_slice(&[0u8; 20]);
    assert_eq!(
        parser.parse_message(&input, false).unwrap_err(),
        FrameError::Oversize { declared: 65535 }
    );
    assert!(parser.is_aborted());
    let foo = [0x04, 0x00, 0x00, 0x00, 0x66, 0x6F, 0x6F, 0x00];
    assert_eq!(parser.parse_message(&foo, false).unwrap_err(), FrameError::Aborted);
}

#[test]
fn largest_frame_is_accepted_and_one_more_is_not() {
    let mut parser = P2PCommandParser::new();
    let mut input = MAX_PAYLOAD_SIZE.to_le_bytes().to_vec();
    input.extend_from_slice(&[0u8; 1399]);
    assert!(parser.parse_message(&input, false).unwrap().is_empty());
    assert_eq!(parser.incomplete().len(), 1403);

    let mut parser = P2PCommandParser::new();
    let input = (MAX_PAYLOAD_SIZE + 1).to_le_bytes();
    assert_eq!(
        parser.parse_message(&input, false).unwrap_err(),
        FrameError::Oversize { declared: 1401 }
    );
}

#[test]
fn sixteen_byte_packet_outside_nonce_window_is_data() {
    let input = frame(&SIXTEEN_BYTE_PACKET);
    let mut parser = P2PCommandParser::new();
    let result = parser.parse_message(&input, false).unwrap();
    assert_eq!(result.len(), 1);
    assert!(result[0].is_data());
    assert!(!result[0].is_nonce());
    let packet = result[0].packet().unwrap();
    assert_eq!(packet.sequence_number(), 0x01020304);
    assert_eq!(packet.payload(), &SIXTEEN_BYTE_PACKET[8..]);

    let mut parser = P2PCommandParser::new();
    let result = parser.parse_message(&input, true).unwrap();
    assert_eq!(result.len(), 1);
    assert!(result[0].is_nonce());
    assert_eq!(result[0].nonce_bytes().unwrap(), &SIXTEEN_BYTE_PACKET[..]);
}

#[test]
fn empty_read_changes_nothing() {
    let mut parser = P2PCommandParser::new();
    parser.parse_message(&[0x10, 0x00, 0x00, 0x00, 0x01], true).unwrap();
    let before = parser.incomplete().to_vec();
    let result = parser.parse_message(&[], true).unwrap();
    assert!(result.is_empty());
    assert_eq!(parser.incomplete(), &before[..]);
}

#[test]
fn byte_by_byte_reads_give_the_same_commands() {
    let mut whole = P2PCommandParser::new();
    let at_once = whole.parse_message(&FOO_AND_NONCE, true).unwrap();

    let mut split = P2PCommandParser::new();
    let mut one_by_one = Vec::new();
    for b in FOO_AND_NONCE.iter() {
        one_by_one.extend(split.parse_message(&[*b], true).unwrap());
    }
    assert_eq!(at_once.len(), one_by_one.len());
    for (a, b) in at_once.iter().zip(one_by_one.iter()) {
        assert_eq!(a.to_bytes(), b.to_bytes());
    }
    assert_eq!(whole.incomplete(), split.incomplete());
}

#[test]
fn emitted_commands_frame_back_to_themselves() {
    let mut parser = P2PCommandParser::new();
    let mut input = FOO_AND_NONCE[..28].to_vec();
    input.extend(frame(&SIXTEEN_BYTE_PACKET));
    let commands = parser.parse_message(&input, true).unwrap();
    assert_eq!(commands.len(), 3);
    assert_eq!(commands[0].to_bytes(), FOO_AND_NONCE[..8].to_vec());
    assert_eq!(commands[1].to_bytes(), FOO_AND_NONCE[8..28].to_vec());

    let data = P2PCommand::data(P2PTransportPacket::parse(&SIXTEEN_BYTE_PACKET).unwrap());
    assert_eq!(data.to_bytes(), frame(&SIXTEEN_BYTE_PACKET));
    for c in commands.iter().chain(std::iter::once(&data)) {
        let mut fresh = P2PCommandParser::new();
        let again = fresh.parse_message(&c.to_bytes(), c.is_nonce()).unwrap();
        assert_eq!(again.len(), 1);
        assert_eq!(again[0].to_bytes(), c.to_bytes());
        assert!(fresh.incomplete().is_empty());
    }
}

#[test]
fn each_command_has_exactly_one_shape() {
    let packet = P2PTransportPacket::parse(&SIXTEEN_BYTE_PACKET).unwrap();
    let commands = [
        P2PCommand::foo(),
        P2PCommand::nonce(vec![7u8; 16]),
        P2PCommand::data(packet),
    ];
    for c in commands.iter() {
        let shapes = [c.is_foo(), c.is_nonce(), c.is_data()];
        assert_eq!(shapes.iter().filter(|s| **s).count(), 1);
    }
}

#[test]
fn empty_frames_are_dropped() {
    let mut parser = P2PCommandParser::new();
    let mut input = vec![0u8; 8];
    input.extend_from_slice(&[0x04, 0x00, 0x00, 0x00, 0x66, 0x6F, 0x6F, 0x00]);
    let result = parser.parse_message(&input, false).unwrap();
    assert_eq!(result.len(), 1);
    assert!(result[0].is_foo());
}

#[test]
fn malformed_packet_is_dropped_and_framing_goes_on() {
    let mut parser = P2PCommandParser::new();
    let mut input = frame(&[0x08, 0x04, 0x00, 0x00, 0, 0, 0, 0]);
    input.extend_from_slice(&[0x04, 0x00, 0x00, 0x00, 0x66, 0x6F, 0x6F, 0x00]);
    let result = parser.parse_message(&input, false).unwrap();
    assert_eq!(result.len(), 1);
    assert!(result[0].is_foo());
}

#[test]
fn frames_split_over_many_reads() {
    let mut input = frame(&SIXTEEN_BYTE_PACKET);
    input.extend_from_slice(&[0x04, 0x00, 0x00, 0x00, 0x66, 0x6F, 0x6F, 0x00]);
    let mut parser = P2PCommandParser::new();
    let mut seen = Vec::new();
    for piece in input.chunks(3) {
        seen.extend(parser.parse_message(piece, false).unwrap());
        assert!(parser.incomplete().len() < 4 + 16);
    }
    assert_eq!(seen.len(), 2);
    assert!(seen[0].is_data());
    assert!(seen[1].is_foo());
}

#[test]
fn classify_follows_precedence() {
    let foo = P2PCommandParser::classify(&[0x66, 0x6F, 0x6F, 0x00], true).unwrap();
    assert!(foo.is_foo());
    let nonce = P2PCommandParser::classify(&[9u8; 16], true).unwrap();
    assert!(nonce.is_nonce());
    assert_eq!(
        P2PCommandParser::classify(&[9u8; 16], false).unwrap_err(),
        DecodeError::ReservedOpCode
    );
    assert_eq!(P2PCommandParser::classify(&[], false).unwrap_err(), DecodeError::TruncatedHeader);
}

#[test]
fn transport_size_is_read_big_endian() {
    let parser = P2PCommandParser::new();
    assert_eq!(parser.get_transport_size(&[0x08, 0x02, 0x03, 0x0F]), Ok(783));
    assert_eq!(parser.get_transport_size(&SIXTEEN_BYTE_PACKET), Ok(8));
    assert_eq!(parser.get_transport_size(&[0x08, 0x02, 0x03]), Err(DecodeError::TruncatedHeader));
}

#[test]
fn append_data_leaves_the_command() {
    let mut c = P2PCommand::nonce(vec![3u8; 16]);
    c.append_data(&[1, 2, 3]);
    assert_eq!(c.nonce_bytes().unwrap(), &[3u8; 16]);
}

#[test]
fn dropped_payloads_are_reported() {
    let mut parser = P2PCommandParser::new();
    let mut input = frame(&[0x08, 0x04, 0x00, 0x00, 0, 0, 0, 0]);
    input.extend_from_slice(&[0u8; 4]);
    input.extend_from_slice(&[0x04, 0x00, 0x00, 0x00, 0x66, 0x6F, 0x6F, 0x00]);
    let (commands, dropped) = parser.parse_message_reporting(&input, false).unwrap();
    assert_eq!(commands.len(), 1);
    assert!(commands[0].is_foo());
    assert_eq!(dropped.len(), 2);
    assert_eq!(dropped[0].payload, vec![0x08, 0x04, 0x00, 0x00, 0, 0, 0, 0]);
    assert_eq!(dropped[0].error, DecodeError::ReservedOpCode);
    assert!(dropped[1].payload.is_empty());
    assert_eq!(dropped[1].error, DecodeError::TruncatedHeader);
}
