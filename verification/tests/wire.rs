//! The datagram wire format: exact bytes, round trips, rejection of
//! malformed input, and byte-compatibility with the serializer the room
//! server uses.

use yawper::messages::RoomMessage;
use yawper::wire::{decode_room_message, encode_room_message, is_datagram_encodable};

#[test]
fn wire_voice_packet_exact_bytes() {
    let m = RoomMessage::VoicePacket { body: vec![0xAA, 0xBB], order_id: 3, user_id: 0x0102030405060708 };
    let e = encode_room_message(&m);
    let expected: Vec<u8> = vec![
        7, 0, 0, 0, // variant tag, 32-bit little endian
        2, 0, 0, 0, 0, 0, 0, 0, // body length, 64-bit little endian
        0xAA, 0xBB, // body
        3, 0, 0, 0, 0, 0, 0, 0, // order_id
        0x08, 0x07, 0x06, 0x05, 0x04, 0x03, 0x02, 0x01, // user_id
    ];
    assert_eq!(e, expected);
}

#[test]
fn wire_voice_packet_round_trip() {
    let m = RoomMessage::VoicePacket { body: vec![9, 8, 7], order_id: 42, user_id: u64::MAX };
    let e = encode_room_message(&m);
    let d = decode_room_message(&e).unwrap();
    assert_eq!(d, m);
}

#[test]
fn wire_empty_body_round_trip() {
    let m = RoomMessage::VoicePacket { body: vec![], order_id: 0, user_id: 0 };
    let e = encode_room_message(&m);
    assert_eq!(e.len(), 28);
    let d = decode_room_message(&e).unwrap();
    assert_eq!(d, m);
}

#[test]
fn wire_unit_variants_round_trip() {
    let variants = vec![
        RoomMessage::Empty {},
        RoomMessage::Connected {},
        RoomMessage::NotConnected {},
        RoomMessage::AcceptUser {},
        RoomMessage::RemoveUser {},
        RoomMessage::RoomEntered {},
    ];
    for m in variants {
        let e = encode_room_message(&m);
        assert_eq!(e.len(), 4);
        let d = decode_room_message(&e).unwrap();
        assert_eq!(d, m);
    }
}

#[test]
fn wire_matches_room_server_serializer() {
    // The server serializes the same enum with bincode's default options
    // (fixed-size little-endian integers, u64 length prefixes). A voice
    // packet is variant 7; the tuple below lays out the identical bytes.
    let body: Vec<u8> = vec![1, 2, 3, 4];
    let order_id: u64 = 99;
    let user_id: u64 = 7;
    let reference = bincode::serialize(&(7u32, body.clone(), order_id, user_id)).unwrap();
    let m = RoomMessage::VoicePacket { body, order_id, user_id };
    assert_eq!(encode_room_message(&m), reference);

    let decoded = decode_room_message(&reference).unwrap();
    assert_eq!(decoded, m);

    let unit_reference = bincode::serialize(&1u32).unwrap();
    assert_eq!(encode_room_message(&RoomMessage::Connected {}), unit_reference);
}

#[test]
fn wire_decode_rejects_truncated_input() {
    assert!(decode_room_message(&[]).is_none());
    assert!(decode_room_message(&[7, 0, 0]).is_none());
    assert!(decode_room_message(&[7, 0, 0, 0]).is_none());
    assert!(decode_room_message(&[7, 0, 0, 0, 2, 0, 0, 0, 0, 0, 0, 0, 0xAA]).is_none());
}

#[test]
fn wire_decode_rejects_unknown_tag() {
    assert!(decode_room_message(&[99, 0, 0, 0]).is_none());
}

#[test]
fn wire_decode_rejects_wrong_length_prefix() {
    let m = RoomMessage::VoicePacket { body: vec![1, 2], order_id: 0, user_id: 0 };
    let mut e = encode_room_message(&m);
    e[4] = 5; // claim a longer body than the datagram carries
    assert!(decode_room_message(&e).is_none());
}

#[test]
fn wire_decode_rejects_trailing_bytes() {
    let m = RoomMessage::Connected {};
    let mut e = encode_room_message(&m);
    e.push(0);
    assert!(decode_room_message(&e).is_none());
}

#[test]
fn wire_text_messages_stay_off_the_datagram_path() {
    let m = RoomMessage::TxtMessage { body: String::from("hello"), user_id: 3 };
    assert!(!is_datagram_encodable(&m));
    let tag6 = bincode::serialize(&6u32).unwrap();
    assert!(decode_room_message(&tag6).is_none());
}
