use alvr_core::connection::ConnectionError;
use alvr_core::welcome::{
    parse_handshake, receive_error, HandshakeError, ReceiveError, HANDSHAKE_PACKET_SIZE_BYTES,
};

const PROTOCOL_ID: u64 = 0x8877_6655_4433_2211;

fn packet(hostname: &[u8]) -> Vec<u8> {
    let mut packet = b"ALVR".to_vec();
    packet.extend([0; 12]);
    packet.extend(PROTOCOL_ID.to_le_bytes());
    packet.extend(hostname);
    packet.resize(HANDSHAKE_PACKET_SIZE_BYTES, 0);
    packet
}

fn parse(packet: &[u8]) -> Result<String, HandshakeError> {
    parse_handshake(packet, packet.len(), PROTOCOL_ID)
}

#[test]
fn handshake_is_understood() {
    assert_eq!(parse(&packet(b"1234.client.alvr")).unwrap(), "1234.client.alvr");
    assert_eq!(parse(&packet(b"")).unwrap(), "");
    assert_eq!(parse(&packet("häuschen".as_bytes())).unwrap(), "häuschen");
    assert_eq!(parse(&packet(&[b'x'; 32])).unwrap(), "x".repeat(32));
    assert_eq!(parse(&packet(b"a\0b\0")).unwrap(), "a\0b");
}

#[test]
fn other_version_is_incompatible() {
    let error = parse_handshake(&packet(b"host"), 56, 5).unwrap_err();
    assert!(matches!(error, HandshakeError::Incompatible { found: PROTOCOL_ID }));
    assert!(matches!(error.meaning("x".into()), ConnectionError::Interrupted));
}

#[test]
fn hostname_has_to_be_text() {
    let error = parse(&packet(&[b'a', 0xff])).unwrap_err();
    match &error {
        HandshakeError::Hostname(cause) => assert_eq!(cause.valid_up_to(), 1),
        other => panic!("{other:?}"),
    }
    assert!(matches!(error.meaning("x".into()), ConnectionError::Other(text) if text == "x"));
}

#[test]
fn short_packet_is_unexpected() {
    let error = parse_handshake(&packet(b"host"), 55, PROTOCOL_ID).unwrap_err();
    assert!(matches!(error, HandshakeError::Unexpected));
    assert!(matches!(error.meaning("x".into()), ConnectionError::Interrupted));
}

#[test]
fn nothing_received_is_not_always_an_error() {
    let meaning = receive_error(ReceiveError::WouldBlock);
    assert!(matches!(meaning, ConnectionError::Interrupted));
    let meaning = receive_error(ReceiveError::Interrupted);
    assert!(matches!(meaning, ConnectionError::Interrupted));
    let meaning = receive_error(ReceiveError::Other("refused".into()));
    assert!(matches!(meaning, ConnectionError::Other(text) if text == "refused"));
}

#[test]
fn padding_has_to_be_zero() {
    for i in 4..16 {
        let mut packet = packet(b"host");
        packet[i] = 1;
        assert!(matches!(parse(&packet), Err(HandshakeError::Unexpected)));
    }
    let mut packet = packet(b"host");
    packet[0] = b'a';
    assert!(matches!(parse(&packet), Err(HandshakeError::Unexpected)));
}

#[test]
fn old_clients_are_recognised() {
    let mut old = b"\x00\x00\x00\x00\x04\x00\x00\x00\x00\x00\x00\x00ALVR".to_vec();
    old.resize(HANDSHAKE_PACKET_SIZE_BYTES, 7);
    assert!(matches!(parse_handshake(&old, 20, PROTOCOL_ID), Err(HandshakeError::OldClient)));
    let mut older = b"\x01ALVR".to_vec();
    older.resize(HANDSHAKE_PACKET_SIZE_BYTES, 7);
    assert!(matches!(parse_handshake(&older, 9, PROTOCOL_ID), Err(HandshakeError::OldClient)));
    older[0] = 2;
    assert!(matches!(parse_handshake(&older, 9, PROTOCOL_ID), Err(HandshakeError::Unexpected)));
}
