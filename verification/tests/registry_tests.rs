use meshgate::device::{devices_from_records, Device, DeviceDB, DeviceTypes};
use meshgate::errors::RegistryError;
use meshgate::packet::{FrameTypes, Packet};
use meshgate::task::{Task, TaskTypes};

const ADDR_A: [u8; 8] = [0x00, 0x13, 0xA2, 0x00, 0x40, 0xAA, 0xBB, 0xCC];

fn temp_registry() -> DeviceDB {
    DeviceDB::new_temporary().expect("open temporary store")
}

#[test]
fn device_identity_is_hardware_address() {
    let a = Device::new(DeviceTypes::PowerMeter, ADDR_A, [0x11, 0x11]);
    let b = Device::new(DeviceTypes::Bridge, ADDR_A, [0x22, 0x22]);
    assert_eq!(a, b);
    let c = Device::new(DeviceTypes::PowerMeter, [0; 8], [0x11, 0x11]);
    assert_ne!(a, c);
}

#[test]
fn add_device_is_idempotent() {
    let mut reg = temp_registry();
    reg.add_device(Device::new(DeviceTypes::PowerMeter, ADDR_A, [0x11, 0x11]));
    assert_eq!(reg.devices.len(), 1);
    // same address, different network address: still the same device
    reg.add_device(Device::new(DeviceTypes::PowerMeter, ADDR_A, [0x22, 0x22]));
    assert_eq!(reg.devices.len(), 1);
    assert_eq!(reg.devices[0].network_address, [0x11, 0x11]);
}

#[test]
fn remove_device_reports_what_it_removed() {
    let mut reg = temp_registry();
    reg.add_device(Device::new(DeviceTypes::Bridge, ADDR_A, [0, 1]));
    let absent = Device::new(DeviceTypes::Bridge, [1; 8], [0, 1]);
    assert!(!reg.remove_device(absent));
    assert_eq!(reg.devices.len(), 1);
    let present = Device::new(DeviceTypes::Bridge, ADDR_A, [9, 9]);
    assert!(reg.remove_device(present));
    assert!(reg.devices.is_empty());
}

#[test]
fn records_decode_in_order_skipping_short_ones() {
    let good_a = Device::new(DeviceTypes::PowerMeter, ADDR_A, [1, 2]).to_ivec();
    let good_b = Device::new(DeviceTypes::Bridge, [9; 8], [3, 4]).to_ivec();
    let records = vec![good_a, vec![2, 0, 0], good_b, Vec::new()];
    let devices = devices_from_records(&records);
    assert_eq!(devices.len(), 2);
    assert_eq!(devices[0].device_type, DeviceTypes::PowerMeter);
    assert_eq!(devices[0].address, ADDR_A);
    assert_eq!(devices[1].device_type, DeviceTypes::Bridge);
    assert_eq!(devices[1].address, [9; 8]);
    assert!(devices[1].messages_sent.is_empty());
}

#[test]
fn device_record_round_trip() {
    let d = Device::new(DeviceTypes::Bridge, ADDR_A, [0x12, 0x34]);
    let record = d.to_ivec();
    assert_eq!(record.len(), 11);
    let back = Device::from_ivec(record.as_slice());
    assert_eq!(back.device_type, DeviceTypes::Bridge);
    assert_eq!(back.address, ADDR_A);
    assert_eq!(back.network_address, [0x12, 0x34]);
}

#[test]
fn discovery_creates_power_meter() {
    let mut reg = temp_registry();
    let mut frame = Packet::new_empty();
    frame.frame_type = FrameTypes::RemoteAtResponse;
    frame.address = ADDR_A;
    frame.network_address = [0x12, 0x34];
    frame.command = [0x44, 0x44];
    frame.data = vec![0x00, 0x00, 0x01];
    let (dtype, returned) = reg.clear_sent_message(&mut frame).expect("ingest");
    assert_eq!(dtype, DeviceTypes::PowerMeter);
    assert_eq!(returned, Packet::new_empty());
    assert_eq!(reg.devices.len(), 1);
    assert_eq!(reg.devices[0].device_type, DeviceTypes::PowerMeter);
    assert_eq!(reg.devices[0].address, ADDR_A);
    assert_eq!(reg.devices[0].network_address, [0x12, 0x34]);
}

#[test]
fn discovery_without_discovery_command_registers_nothing() {
    let mut reg = temp_registry();
    let mut frame = Packet::new_empty();
    frame.frame_type = FrameTypes::RemoteAtResponse;
    frame.address = ADDR_A;
    frame.command = [0x4E, 0x44];
    frame.data = vec![0x01];
    let (dtype, _) = reg.clear_sent_message(&mut frame).expect("ingest");
    assert_eq!(dtype, DeviceTypes::Unknown);
    assert!(reg.devices.is_empty());
}

#[test]
fn unicast_send_then_receive_correlates() {
    let mut reg = temp_registry();
    reg.add_device(Device::new(DeviceTypes::PowerMeter, ADDR_A, [0x12, 0x34]));

    let sent_frame = Packet::new_transmit(&ADDR_A, &[0x05, 0xAA, 0xBB]);
    let task = Task::new(sent_frame, TaskTypes::Single, 0, 0, DeviceTypes::PowerMeter);
    reg.add_sent_message(task, 5, false);
    assert_eq!(reg.devices[0].messages_sent.len(), 1);
    assert_eq!(reg.get_undelivered_packets().len(), 1);

    let mut inbound = Packet::new_empty();
    inbound.frame_type = FrameTypes::ReceivePacket;
    inbound.address = ADDR_A;
    inbound.data = vec![5, 0x10, 0x20];
    let (dtype, sent_back) = reg.clear_sent_message(&mut inbound).expect("ingest");

    assert_eq!(dtype, DeviceTypes::PowerMeter);
    // the pending list shrank from one to zero
    assert_eq!(reg.devices[0].messages_sent.len(), 0);
    assert_eq!(reg.get_undelivered_packets().len(), 0);
    // the identifier byte was stripped from the received payload
    assert_eq!(inbound.data, vec![0x10, 0x20]);
    // the sent frame came back minus its own identifier byte, with its
    // checksum recomputed
    assert_eq!(sent_back.data, vec![0xAA, 0xBB]);
    assert_eq!(sent_back.address, ADDR_A);
    assert!(sent_back.is_valid());
}

#[test]
fn unmatched_identifier_is_a_recoverable_error() {
    let mut reg = temp_registry();
    reg.add_device(Device::new(DeviceTypes::PowerMeter, ADDR_A, [0x12, 0x34]));
    let task = Task::new(
        Packet::new_transmit(&ADDR_A, &[0x05, 0xAA]),
        TaskTypes::Single,
        0,
        0,
        DeviceTypes::PowerMeter,
    );
    reg.add_sent_message(task, 5, false);

    let mut inbound = Packet::new_empty();
    inbound.frame_type = FrameTypes::ReceivePacket;
    inbound.address = ADDR_A;
    inbound.data = vec![99, 0x10];
    let err = reg.clear_sent_message(&mut inbound).unwrap_err();
    assert_eq!(err, RegistryError::NoMatchingRequest);
    // nothing was removed and the payload kept its identifier
    assert_eq!(reg.devices[0].messages_sent.len(), 1);
    assert_eq!(inbound.data, vec![99, 0x10]);
}

#[test]
fn broadcast_task_recorded_under_matching_class_only() {
    let mut reg = temp_registry();
    reg.add_device(Device::new(DeviceTypes::PowerMeter, ADDR_A, [0, 1]));
    reg.add_device(Device::new(DeviceTypes::Bridge, [1; 8], [0, 2]));
    reg.add_device(Device::new(DeviceTypes::PowerMeter, [2; 8], [0, 3]));

    let task = Task::new(
        Packet::new_broadcast(&[0x05, 0x01]),
        TaskTypes::Single,
        0,
        0,
        DeviceTypes::PowerMeter,
    );
    reg.add_sent_message(task, 5, false);
    assert_eq!(reg.devices[0].messages_sent.len(), 1);
    assert_eq!(reg.devices[1].messages_sent.len(), 0);
    assert_eq!(reg.devices[2].messages_sent.len(), 1);
    assert_eq!(reg.get_undelivered_packets().len(), 2);
}

#[test]
fn clear_resent_message_removes_first_match_only() {
    let mut reg = temp_registry();
    reg.add_device(Device::new(DeviceTypes::PowerMeter, ADDR_A, [0, 1]));
    let task = Task::new(
        Packet::new_transmit(&ADDR_A, &[0x05, 0xAA]),
        TaskTypes::Single,
        0,
        0,
        DeviceTypes::PowerMeter,
    );
    reg.add_sent_message(task, 5, false);
    let undelivered = reg.get_undelivered_packets();
    assert_eq!(undelivered.len(), 1);
    let record = undelivered.into_iter().next().unwrap();
    reg.clear_resent_message(record);
    assert_eq!(reg.devices[0].messages_sent.len(), 0);
}

#[test]
fn delivery_status_from_known_device_changes_nothing() {
    let mut reg = temp_registry();
    reg.add_device(Device::new(DeviceTypes::Bridge, ADDR_A, [0, 1]));
    let mut status = Packet::new_empty();
    status.frame_type = FrameTypes::TransmitStatus;
    status.address = ADDR_A;
    status.delivery_status = 0x00;
    let (dtype, returned) = reg.clear_sent_message(&mut status).expect("ingest");
    assert_eq!(dtype, DeviceTypes::Bridge);
    assert_eq!(returned, Packet::new_empty());
    assert_eq!(reg.devices.len(), 1);
}

#[test]
fn unicast_to_unknown_address_records_nothing() {
    let mut reg = temp_registry();
    reg.add_device(Device::new(DeviceTypes::PowerMeter, ADDR_A, [0, 1]));
    let task = Task::new(
        Packet::new_transmit(&[7; 8], &[0x05, 0xAA]),
        TaskTypes::Single,
        0,
        0,
        DeviceTypes::PowerMeter,
    );
    reg.add_sent_message(task, 5, false);
    assert!(reg.get_undelivered_packets().is_empty());
}
