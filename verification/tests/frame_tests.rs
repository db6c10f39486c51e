use meshgate::device::{Device, DeviceTypes};
use meshgate::errors::DecodeError;
use meshgate::packet::{calculate_checksum, FrameTypes, Packet};

#[test]
fn broadcast_round_trip() {
    let frame = Packet::new_broadcast(&[0x05, 0xAA, 0xBB]);
    assert!(frame.is_broadcast);
    assert_eq!(frame.length, 17);
    let mut bytes = frame.as_bytes();
    let decoded = Packet::from_data(&mut bytes).expect("decode");
    assert_eq!(decoded, frame);
    assert!(bytes.is_empty());
}

#[test]
fn transmit_round_trip() {
    let dest = [0x00, 0x13, 0xA2, 0x00, 0x40, 0x01, 0x02, 0x03];
    let frame = Packet::new_transmit(&dest, &[1, 2, 3, 4]);
    let mut bytes = frame.as_bytes();
    let decoded = Packet::from_data(&mut bytes).expect("decode");
    assert_eq!(decoded, frame);
}

#[test]
fn remote_at_round_trip() {
    let dest = [0x00, 0x13, 0xA2, 0x00, 0x40, 0x01, 0x02, 0x03];
    let frame = Packet::new_remote_at(&dest, 7, 0x4444, &[0x01]);
    let mut bytes = frame.as_bytes();
    let decoded = Packet::from_data(&mut bytes).expect("decode");
    assert_eq!(decoded, frame);
}

#[test]
fn local_at_round_trip() {
    let frame = Packet::new_local_at(3, 0x4E44, &[0x11, 0x22]);
    let mut bytes = frame.as_bytes();
    let decoded = Packet::from_data(&mut bytes).expect("decode");
    assert_eq!(decoded, frame);
}

#[test]
fn local_at_exact_wire_form() {
    // length 8, covered bytes 0x08 + 0x01 sum to 9, checksum 255 - 9 = 246
    let frame = Packet::new_local_at(1, 0x4444, &[]);
    assert_eq!(frame.as_bytes(), vec![0x7E, 0, 8, 0x08, 1, 0x44, 0x44, 246]);
}

#[test]
fn truncated_buffer_is_insufficient_data() {
    let mut raw = vec![0x7E, 0x00, 0x10, 0x90, 0x01];
    let before = raw.clone();
    let result = Packet::from_data(&mut raw);
    assert_eq!(result.unwrap_err(), DecodeError::InsufficientData);
    assert_eq!(raw, before);
}

#[test]
fn bad_start_byte_is_rejected_and_consumed() {
    let mut raw = vec![0x7F, 0x00, 0x10, 0x90, 0x01, 0x02, 0x03];
    let result = Packet::from_data(&mut raw);
    assert_eq!(result.unwrap_err(), DecodeError::InvalidStartByte);
    assert_eq!(raw.len(), 6);
}

#[test]
fn corrupted_checksum_is_rejected() {
    let frame = Packet::new_broadcast(&[9, 8, 7]);
    let mut bytes = frame.as_bytes();
    let last = bytes.len() - 1;
    bytes[last] = bytes[last].wrapping_add(1);
    let result = Packet::from_data(&mut bytes);
    assert_eq!(result.unwrap_err(), DecodeError::InvalidChecksum);
}

#[test]
fn mutating_covered_field_invalidates_checksum() {
    let mut frame = Packet::new_broadcast(&[1, 2, 3]);
    assert!(frame.is_valid());
    frame.frame_id = frame.frame_id.wrapping_add(1);
    assert!(!frame.is_valid());
}

#[test]
fn checksum_equation_matches_is_valid() {
    let frame = Packet::new_transmit(&[1, 2, 3, 4, 5, 6, 7, 8], &[0x10, 0x20]);
    assert!(frame.is_valid());
    let recomputed = calculate_checksum(frame.clone());
    assert_eq!(frame.checksum, recomputed);
}

#[test]
fn set_frame_id_recomputes_checksum() {
    let mut frame = Packet::new_broadcast(&[1, 2, 3]);
    frame.set_frame_id(42);
    assert_eq!(frame.frame_id, 42);
    assert!(frame.is_valid());
}

#[test]
fn insert_identifier_bumps_length_and_recomputes() {
    let mut frame = Packet::new_broadcast(&[0x05, 0xAA]);
    let old_length = frame.length;
    frame.insert_packet_identifer(9);
    assert_eq!(frame.data, vec![9, 0x05, 0xAA]);
    assert_eq!(frame.length, old_length + 1);
    assert!(frame.is_valid());
}

#[test]
fn identifier_by_frame_type() {
    let mut frame = Packet::new_empty();
    frame.frame_type = FrameTypes::TransmitStatus;
    frame.frame_id = 12;
    assert_eq!(frame.get_packet_identifier(), 12);

    frame.frame_type = FrameTypes::ReceivePacket;
    frame.data = vec![5, 6, 7];
    assert_eq!(frame.get_packet_identifier(), 5);

    frame.frame_type = FrameTypes::TransmitRequest;
    assert_eq!(frame.get_packet_identifier(), 5);

    frame.frame_type = FrameTypes::RemoteAtResponse;
    assert_eq!(frame.get_packet_identifier(), 255);
}

#[test]
fn remove_identifier_shifts_payload_and_recomputes() {
    let mut frame = Packet::new_broadcast(&[5, 6, 7]);
    let old_length = frame.length;
    let removed = frame.remove_packet_identifier(0);
    assert_eq!(removed, 5);
    assert_eq!(frame.data(), &vec![6, 7]);
    assert_eq!(frame.length, old_length - 1);
    assert!(frame.is_valid());
}

#[test]
fn unknown_frame_type_fails_checksum() {
    // a frame of an unrecognized type never validates
    let mut raw = vec![0x7E, 0x00, 0x05, 0x42, 0x01, 0x02, 0x03];
    let result = Packet::from_data(&mut raw);
    assert_eq!(result.unwrap_err(), DecodeError::InvalidChecksum);
    assert_eq!(raw.len(), 3);
}

#[test]
fn transmit_status_decodes() {
    // frame id 2, network address 0x1234, retry 0, delivered, no discovery
    let covered: u8 = 0x8B_u8
        .wrapping_add(2)
        .wrapping_add(0x12)
        .wrapping_add(0x34);
    let checksum = 255 - covered;
    let mut raw = vec![0x7E, 0x00, 0x07, 0x8B, 2, 0x12, 0x34, 0, 0, 0, checksum];
    let decoded = Packet::from_data(&mut raw).expect("decode");
    assert_eq!(decoded.frame_type, FrameTypes::TransmitStatus);
    assert_eq!(decoded.frame_id, 2);
    assert_eq!(decoded.network_address, [0x12, 0x34]);
    assert_eq!(decoded.delivery_status, 0);
}

#[test]
fn add_then_remove_identifier_restores_payload() {
    let mut frame = Packet::new_transmit(&[1; 8], &[0xAA, 0xBB]);
    let original_length = frame.length;
    Device::add_identifier(&mut frame, DeviceTypes::PowerMeter, 7);
    assert_eq!(frame.frame_id, 7);
    assert_eq!(frame.data, vec![7, 0xAA, 0xBB]);
    assert_eq!(frame.length, original_length + 1);
    assert_eq!(frame.get_packet_identifier(), 7);
    assert!(frame.is_valid());
    Device::remove_identifier(&mut frame, DeviceTypes::PowerMeter);
    assert_eq!(frame.data, vec![0xAA, 0xBB]);
    assert_eq!(frame.length, original_length);
    // the removal recomputed the checksum, so the frame is valid again
    assert!(frame.is_valid());
}
