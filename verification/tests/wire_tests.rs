use bytes::Bytes;

use iap2_rs::packet::{ControlByte, Iap2Packet, PacketType};
use iap2_rs::text::{push_number, with_hex, with_number};
use iap2_rs::wire::{checksum_of, fits_control_message, frame_control_message, read_be16, wrapping_sum};
use iap2_rs::Iap2Error;

#[test]
fn checksum_makes_the_bytes_sum_to_zero() {
    let data = [0xFF, 0x5A, 0x00, 0x09, 0x40, 0x10, 0x05, 0x00];
    let c = checksum_of(&data);
    assert_eq!(wrapping_sum(&data).wrapping_add(c), 0);
    assert_eq!(checksum_of(&[]), 0);
    assert_eq!(checksum_of(&[0x01]), 0xFF);
}

#[test]
fn big_endian_fields() {
    assert_eq!(read_be16(0x12, 0x34), 0x1234);
    assert_eq!(frame_control_message(0x4157, &[]), vec![0x40, 0x40, 0x00, 0x06, 0x41, 0x57]);
    assert_eq!(
        frame_control_message(0x1D01, &[0xAA, 0xBB]),
        vec![0x40, 0x40, 0x00, 0x08, 0x1D, 0x01, 0xAA, 0xBB]
    );
    assert!(fits_control_message(65529));
    assert!(!fits_control_message(65530));
}

#[test]
fn unknown_control_byte_is_an_invalid_packet() {
    match PacketType::from_u8(0x20) {
        Err(Iap2Error::InvalidPacket(m)) => assert_eq!(m, "Unknown packet type: 0x20"),
        other => panic!("unexpected {:?}", other),
    }
    assert!(PacketType::try_from(0x30u8).is_err());
    assert!(ControlByte::from_byte(0x10).is_err());
    let cb = ControlByte::from_byte(0x48).unwrap();
    assert_eq!(cb.packet_type, PacketType::Ack);
    assert!(cb.has_session);
    assert_eq!(PacketType::from_u8(0x4F).unwrap(), PacketType::Ack);
}

#[test]
fn session_zero_reads_back_as_no_session() {
    let wire = Iap2Packet::data(0x01, 0x02, 0x00, Bytes::from_static(&[0x01])).to_bytes();
    let parsed = Iap2Packet::from_bytes(&wire).unwrap();
    assert_eq!(parsed.session_id, None);
    assert!(parsed.control.has_session);
}

#[test]
fn bad_payload_checksum_is_refused() {
    let mut wire = Iap2Packet::data(0x01, 0x00, 0x0A, Bytes::from_static(&[0xDE, 0xAD])).to_bytes().to_vec();
    let last = wire.len() - 1;
    wire[last] = wire[last].wrapping_add(1);
    assert!(matches!(Iap2Packet::from_bytes(&wire), Err(Iap2Error::InvalidPacket(_))));
}

#[test]
fn encodable_sizes() {
    let small = Iap2Packet::data(0, 0, 0x0A, Bytes::from(vec![0u8; 65525]));
    assert!(small.is_encodable());
    let large = Iap2Packet::data(0, 0, 0x0A, Bytes::from(vec![0u8; 65526]));
    assert!(!large.is_encodable());
    assert!(Iap2Packet::ack(0, 0).is_encodable());
    assert_eq!(small.encode_vec().len(), 65535);
}

#[test]
fn text_helpers() {
    assert_eq!(with_hex("sum=", 0x0A), "sum=0x0A");
    assert_eq!(with_number("got ", 1234, " bytes"), "got 1234 bytes");
    let mut s = String::from("n=");
    push_number(&mut s, 0);
    assert_eq!(s, "n=0");
    push_number(&mut s, u64::MAX);
    assert_eq!(s, "n=018446744073709551615");
}

#[test]
fn refused_packets_give_their_reason() {
    let reason = |d: &[u8]| match Iap2Packet::from_bytes(d) {
        Err(Iap2Error::InvalidPacket(m)) => m,
        other => panic!("unexpected {:?}", other.is_ok()),
    };
    assert_eq!(reason(&[0xFF, 0x5A]), "Packet too short: 2 bytes");
    assert_eq!(reason(&[0x00, 0x5A, 0x00, 0x06, 0xEE, 0x10]), "Invalid sync/SOP bytes");
    assert_eq!(
        reason(&[0xFF, 0x5A, 0x00, 0x09, 0x40, 0x01]),
        "Incomplete packet: expected 9 bytes, got 6"
    );
    assert_eq!(reason(&[0xFF, 0x5A, 0x00, 0x06, 0x20, 0x01]), "Unknown packet type: 0x20");
    assert_eq!(
        reason(&[0xFF, 0x5A, 0x00, 0x08, 0x40, 0x01, 0x00, 0x00]),
        "Packet too short for type Ack: 8 bytes"
    );
    let mut wire = Iap2Packet::ack(0x01, 0x00).to_bytes().to_vec();
    wire[8] = wire[8].wrapping_add(1);
    assert_eq!(reason(&wire), "Header checksum verification failed: sum=0x01 (expected 0)");
    let mut wire = Iap2Packet::data(0x01, 0x00, 0x0A, Bytes::from_static(&[0xDE])).to_bytes().to_vec();
    let last = wire.len() - 1;
    wire[last] = wire[last].wrapping_add(2);
    assert_eq!(reason(&wire), "Payload checksum verification failed: sum=0x02 (expected 0)");
}
