use meshgate::device::DeviceTypes;
use meshgate::errors::DecodeError;
use meshgate::packet::Packet;
use meshgate::task::{Task, TaskTypes};

#[test]
fn task_round_trip() {
    let dest = [0, 1, 2, 3, 4, 5, 6, 7];
    let packet = Packet::new_transmit(&dest, &[0x05, 0x77, 0x88]);
    let task = Task::new(packet, TaskTypes::Single, 5, 30, DeviceTypes::PowerMeter);
    let bytes = task.to_vec();
    let back = Task::from_vec(bytes).expect("parse");
    assert_eq!(back, task);
    assert_eq!(back.task_type, TaskTypes::Single);
    assert_eq!(back.min, 5);
    assert_eq!(back.sec, 30);
    assert_eq!(back.device_type, DeviceTypes::PowerMeter);
    assert_eq!(back.packet.data, vec![0x05, 0x77, 0x88]);
}

#[test]
fn task_round_trip_broadcast() {
    let packet = Packet::new_broadcast(&[0x01]);
    let task = Task::new(packet, TaskTypes::Periodic, 1, 0, DeviceTypes::Bridge);
    let back = Task::from_vec(task.to_vec()).expect("parse");
    assert_eq!(back, task);
    assert!(back.packet.is_broadcast);
}

#[test]
fn task_identity_is_payload_and_address() {
    let dest = [9, 9, 9, 9, 9, 9, 9, 9];
    let a = Task::new(
        Packet::new_transmit(&dest, &[1, 2]),
        TaskTypes::Single,
        5,
        30,
        DeviceTypes::PowerMeter,
    );
    // different schedule and kind, same payload and address: the same task
    let b = Task::new(
        Packet::new_transmit(&dest, &[1, 2]),
        TaskTypes::Periodic,
        1,
        1,
        DeviceTypes::Bridge,
    );
    assert_eq!(a, b);
    // different payload: a different task
    let c = Task::new(
        Packet::new_transmit(&dest, &[1, 3]),
        TaskTypes::Single,
        5,
        30,
        DeviceTypes::PowerMeter,
    );
    assert_ne!(a, c);
}

#[test]
fn task_from_short_buffer_fails() {
    let e = Task::from_vec(vec![0, 1, 2, 3]).unwrap_err();
    assert_eq!(e, DecodeError::InsufficientData);
}

#[test]
fn task_byte_layout() {
    let packet = Packet::new_local_at(1, 0x4444, &[]);
    let task = Task::new(packet, TaskTypes::Single, 2, 3, DeviceTypes::Bridge);
    let bytes = task.to_vec();
    assert_eq!(bytes[0], 1); // kind tag
    assert_eq!(&bytes[1..9], &[2, 0, 0, 0, 0, 0, 0, 0]); // minutes, little endian
    assert_eq!(&bytes[9..17], &[3, 0, 0, 0, 0, 0, 0, 0]); // seconds, little endian
    assert_eq!(bytes[17], 2); // device class tag
    assert_eq!(&bytes[18..], &[0x7E, 0, 8, 0x08, 1, 0x44, 0x44, 246]);
}

#[test]
fn task_with_corrupted_frame_fails_checksum() {
    let packet = Packet::new_transmit(&[1; 8], &[0x05]);
    let task = Task::new(packet, TaskTypes::Single, 0, 0, DeviceTypes::PowerMeter);
    let mut bytes = task.to_vec();
    let last = bytes.len() - 1;
    bytes[last] = bytes[last].wrapping_add(1);
    let e = Task::from_vec(bytes).unwrap_err();
    assert_eq!(e, DecodeError::InvalidChecksum);
}
