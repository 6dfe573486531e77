use string_telephone::packet::Packet;
use string_telephone::packet::PacketError;
use string_telephone::packet::PacketType;

/// Encoding is the documented wire layout: big-endian protocol id, big-endian
/// sequence id, one type byte, then the payload.
#[test]
fn serialize_exact_bytes() {
    let accept = Packet::accept(121, 0).serialize().unwrap();
    assert_eq!(accept, vec![0, 0, 0, 121, 0, 0, 1]);

    let message = Packet::message(0x01020304, 0x0506, vec![7, 8]).serialize().unwrap();
    assert_eq!(message, vec![1, 2, 3, 4, 5, 6, 4, 7, 8]);
}

/// Decoding an encoded packet gives the packet back, for every type.
#[test]
fn round_trip() {
    let packets = vec![
        Packet::connect(121, 1),
        Packet::accept(0xffffffff, 0xffff),
        Packet::reject(0, 0),
        Packet::disconnect(7, 42),
        Packet::message(121, 3, vec![1, 2, 3]),
        Packet::message(121, 4, vec![]),
    ];
    for packet in packets {
        let raw = packet.serialize().unwrap();
        let decoded = Packet::deserialize(&raw).unwrap();
        assert!(decoded == packet);
    }
}

/// Fewer than 7 bytes is malformed, whatever the bytes are.
#[test]
fn deserialize_short_buffer_fails() {
    assert!(matches!(Packet::deserialize(&[]), Err(PacketError::MalformedPacket)));
    assert!(matches!(
        Packet::deserialize(&[0, 0, 0, 121, 0, 0]),
        Err(PacketError::MalformedPacket)
    ));
}

/// A type byte outside the known range is malformed, whatever follows.
#[test]
fn deserialize_bad_type_byte_fails() {
    assert!(matches!(
        Packet::deserialize(&[0, 0, 0, 121, 0, 0, 5]),
        Err(PacketError::MalformedPacket)
    ));
    assert!(matches!(
        Packet::deserialize(&[0, 0, 0, 121, 0, 0, 255, 1, 2]),
        Err(PacketError::MalformedPacket)
    ));
}

/// Trailing bytes after the header are ignored for non-message types.
#[test]
fn deserialize_ignores_trailing_bytes_for_control() {
    let decoded = Packet::deserialize(&[0, 0, 0, 121, 0, 1, 0, 9, 9]).unwrap();
    assert_eq!(decoded.protocol_id, 121);
    assert_eq!(decoded.sequence_id, 1);
    assert!(decoded.packet_type == PacketType::Connect);
    assert!(decoded.packet_content.is_none());
}

/// A message's payload is exactly the trailing bytes, possibly empty.
#[test]
fn deserialize_message_payload() {
    let decoded = Packet::deserialize(&[0, 0, 0, 121, 0, 2, 4, 10, 11]).unwrap();
    assert!(decoded.packet_type == PacketType::Message);
    assert_eq!(decoded.packet_content, Some(vec![10, 11]));

    let empty = Packet::deserialize(&[0, 0, 0, 121, 0, 2, 4]).unwrap();
    assert!(empty.packet_type == PacketType::Message);
    assert_eq!(empty.packet_content, Some(vec![]));
}
