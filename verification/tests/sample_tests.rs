use meshgate::device::{DeviceSummary, DeviceTypes};
use meshgate::errors::DecodeError;
use meshgate::message::Message;
use meshgate::modbus::FunctionTypes;
use meshgate::packet::{FrameTypes, Packet};
use meshgate::samples::{
    time_as_millis, time_from_millis, BridgeSample, MeterDataTypes, MeterSample, PulseSample,
    Sample, SampleTypes,
};

fn meter_frames(payload: Vec<u8>) -> (Packet, Packet) {
    let sent = Packet::new_transmit(&[1; 8], &[b'w']);
    let mut received = Packet::new_empty();
    received.frame_type = FrameTypes::ReceivePacket;
    received.address = [0x0A; 8];
    received.data = payload;
    (sent, received)
}

#[test]
fn meter_values_are_multiples_of_twenty() {
    // twelve triplets of [0x00, 0x10, 0x00]
    let mut payload = Vec::new();
    for _ in 0..12 {
        payload.extend_from_slice(&[0x00, 0x10, 0x00]);
    }
    let (sent, received) = meter_frames(payload);
    let sample = MeterSample::new(sent, received);
    assert_eq!(sample.values.len(), 24);
    for v in &sample.values {
        assert_eq!(v % 20, 0);
    }
    // each triplet decodes to the pair (20, 0)
    assert_eq!(sample.values[0], 20);
    assert_eq!(sample.values[1], 0);
    assert_eq!(sample.data_type, MeterDataTypes::Power);
    assert_eq!(sample.hardware_id, [0x0A; 8]);
}

#[test]
fn meter_value_formula_exact() {
    // first triplet [0x12, 0x34, 0x56]:
    //   first reading  20 * (0x12 * 16 + 0x3)  = 20 * 291 = 5820
    //   second reading 20 * (0x4 * 256 + 0x56) = 20 * 1110 = 22200
    let mut payload = vec![0x12, 0x34, 0x56];
    payload.extend_from_slice(&[0; 33]);
    let (sent, received) = meter_frames(payload);
    let sample = MeterSample::new(sent, received);
    assert_eq!(sample.values[0], 5820);
    assert_eq!(sample.values[1], 22200);
}

#[test]
fn meter_persistence_round_trip() {
    let mut payload = Vec::new();
    for i in 0..36u8 {
        payload.push(i);
    }
    let (sent, received) = meter_frames(payload);
    let sample = MeterSample::new(sent, received);
    let (record, key) = sample.to_ivec();
    assert_eq!(key.len(), 8);
    let back = MeterSample::from_ivec(record);
    assert_eq!(back.timestamp, sample.timestamp);
    assert_eq!(back.hardware_id, sample.hardware_id);
    assert_eq!(back.data_type, sample.data_type);
    assert_eq!(back.values, sample.values);
}

#[test]
fn content_key_is_deterministic() {
    let sample = MeterSample::new_empty();
    let (record_a, key_a) = sample.to_ivec();
    let (record_b, key_b) = sample.to_ivec();
    assert_eq!(record_a, record_b);
    assert_eq!(key_a, key_b);
}

#[test]
fn pulse_counters_read_big_endian() {
    let sent = Packet::new_transmit(&[1; 8], &[b'p']);
    let mut received = Packet::new_empty();
    received.frame_type = FrameTypes::ReceivePacket;
    received.address = [0x0B; 8];
    received.data = vec![0x00, 0x01, 0x00, 0x02, 0x01, 0x00, 0x00, 0x00, 0xFF, 0xFF, 0x00, 0x2A];
    let sample = PulseSample::new(sent, received);
    assert_eq!(sample.pulses, [1, 2, 256, 0, 0xFFFF, 42]);
}

#[test]
fn pulse_persistence_round_trip() {
    let sent = Packet::new_transmit(&[1; 8], &[b'p']);
    let mut received = Packet::new_empty();
    received.frame_type = FrameTypes::ReceivePacket;
    received.address = [0x0B; 8];
    received.data = vec![0, 1, 0, 2, 0, 3, 0, 4, 0, 5, 0, 6];
    let sample = PulseSample::new(sent, received);
    let (record, _key) = sample.to_ivec();
    let back = PulseSample::from_ivec(record);
    assert_eq!(back.timestamp, sample.timestamp);
    assert_eq!(back.hardware_id, sample.hardware_id);
    assert_eq!(back.pulses, sample.pulses);
}

fn bridge_frames(sent_payload: Vec<u8>, received_payload: Vec<u8>) -> (Packet, Packet) {
    let mut sent = Packet::new_empty();
    sent.frame_type = FrameTypes::TransmitRequest;
    sent.data = sent_payload;
    let mut received = Packet::new_empty();
    received.frame_type = FrameTypes::ReceivePacket;
    received.address = [0x0C; 8];
    received.data = received_payload;
    (sent, received)
}

#[test]
fn bridge_register_read_decodes_words() {
    let (sent, received) = bridge_frames(
        vec![1, 3, 0, 0, 0, 2, 196, 11],
        vec![1, 3, 4, 0x00, 0x2A, 0x01, 0x00, 218, 107],
    );
    let sample = BridgeSample::new(sent, received).expect("decode");
    assert_eq!(sample.device_address, 1);
    assert_eq!(sample.function, FunctionTypes::ReadHoldingRegisters);
    assert_eq!(sample.start_address, 0);
    assert_eq!(sample.values, vec![42, 256]);
    assert_eq!(sample.hardware_id, [0x0C; 8]);
}

#[test]
fn bridge_coil_read_unpacks_bits() {
    // five coils requested; response byte 0b10110 packs them lowest bit first
    let (sent, received) = bridge_frames(
        vec![1, 1, 0, 0, 0, 5, 252, 9],
        vec![1, 1, 1, 0b0001_0110, 7, 8],
    );
    let sample = BridgeSample::new(sent, received).expect("decode");
    assert_eq!(sample.values, vec![0, 1, 1, 0, 1]);
}

#[test]
fn bridge_single_write_echoes_value() {
    let (sent, received) = bridge_frames(
        vec![1, 5, 0, 16, 0xFF, 0x00, 141, 255],
        vec![1, 5, 0, 16, 0xFF, 0x00, 141, 255],
    );
    let sample = BridgeSample::new(sent, received).expect("decode");
    assert_eq!(sample.values, vec![1]);
    assert_eq!(sample.start_address, 16);
}

#[test]
fn bridge_multi_write_yields_no_values() {
    let (sent, received) = bridge_frames(
        vec![1, 0x16, 0, 16, 0, 2, 7, 8],
        vec![1, 0x16, 0, 16, 0, 2, 7, 8],
    );
    let sample = BridgeSample::new(sent, received).expect("decode");
    assert!(sample.values.is_empty());
    assert_eq!(sample.function, FunctionTypes::WriteMultipleRegisters);
}

#[test]
fn bridge_short_response_fails() {
    let (sent, received) = bridge_frames(
        vec![1, 3, 0, 0, 0, 2, 196, 11],
        vec![1, 3, 4, 0x00],
    );
    let e = BridgeSample::new(sent, received).unwrap_err();
    assert_eq!(e, DecodeError::InsufficientData);
}

#[test]
fn bridge_persistence_round_trip() {
    let (sent, received) = bridge_frames(
        vec![1, 3, 0, 7, 0, 2, 0, 0],
        vec![1, 3, 4, 0x00, 0x2A, 0x01, 0x00, 0, 0],
    );
    let sample = BridgeSample::new(sent, received).expect("decode");
    let (record, _key) = sample.to_ivec();
    let back = BridgeSample::from_ivec(record);
    assert_eq!(back.timestamp, sample.timestamp);
    assert_eq!(back.hardware_id, sample.hardware_id);
    assert_eq!(back.device_address, sample.device_address);
    assert_eq!(back.start_address, sample.start_address);
    assert_eq!(back.function, sample.function);
    assert_eq!(back.values, sample.values);
}

#[test]
fn epoch_millis_round_trip() {
    let t = time_from_millis(1_600_000_000_123);
    assert_eq!(time_as_millis(t), 1_600_000_000_123);
}

#[test]
fn message_wraps_samples() {
    let keyed = vec![
        (vec![1u8, 2, 3], Sample::Pulse(PulseSample::new_empty())),
        (vec![4u8], Sample::Unknown),
    ];
    match Message::new_samples(&keyed) {
        Message::Samples(s) => {
            assert_eq!(s.len(), 2);
            assert_eq!(s[0].0, vec![1, 2, 3]);
            assert!(matches!(s[0].1, Sample::Pulse(_)));
            assert!(matches!(s[1].1, Sample::Unknown));
        }
        _ => panic!("wrong variant"),
    }
}

#[test]
fn message_wraps_device_list() {
    let list = vec![DeviceSummary {
        device_type: DeviceTypes::Bridge,
        address: [5; 8],
        network_address: [1, 2],
        secs_since_heard_from: 30,
    }];
    match Message::new_device_list(&list) {
        Message::DeviceList(l) => {
            assert_eq!(l.len(), 1);
            assert_eq!(l[0].address, [5; 8]);
        }
        _ => panic!("wrong variant"),
    }
}

#[test]
fn message_wraps_requests_and_errors() {
    match Message::new_request_samples(SampleTypes::Meter, 16) {
        Message::RequestSamples { sample_type, num_samples } => {
            assert_eq!(sample_type, SampleTypes::Meter);
            assert_eq!(num_samples, 16);
        }
        _ => panic!("wrong variant"),
    }
    match Message::new_error_message(String::from("Samples Removed")) {
        Message::ErrorMessage(s) => assert_eq!(s, "Samples Removed"),
        _ => panic!("wrong variant"),
    }
}
