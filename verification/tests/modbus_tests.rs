use meshgate::errors::DecodeError;
use meshgate::modbus::{DataTypes, FunctionTypes, ModbusMessage};

#[test]
fn read_message_crc_is_standard_modbus() {
    // the classic reference exchange: unit 1, read input registers,
    // start 0, two points; wire CRC is 0x71 0xCB, low byte first
    let m = ModbusMessage::new_read_message(1, 0x04, 0, 2);
    assert_eq!(m.crc, [0x71, 0xCB]);
    assert_eq!(m.as_bytes(), vec![1, 4, 0, 0, 0, 2, 0x71, 0xCB]);
}

#[test]
fn read_holding_registers_crc() {
    let m = ModbusMessage::new_read_message(1, 0x03, 0, 2);
    assert_eq!(m.crc, [196, 11]);
    assert_eq!(m.data_type, DataTypes::Register);
    assert_eq!(m.num_data_points, 2);
}

#[test]
fn write_single_coil_crc() {
    let m = ModbusMessage::new_write_message(1, 0x05, 16, 1, vec![0xFF, 0x00]);
    assert_eq!(m.crc, [141, 255]);
    assert_eq!(m.function, FunctionTypes::WriteSingleCoil);
    assert_eq!(m.data_type, DataTypes::Coil);
}

#[test]
fn read_coil_status_crc_covers_count() {
    // the CRC covers the count field, as for every read function, so the
    // stored CRC validates over the wire bytes
    let m = ModbusMessage::new_read_message(1, 0x01, 0, 2);
    assert_eq!(m.crc, [189, 203]);
    assert_eq!(m.as_bytes(), vec![1, 1, 0, 0, 0, 2, 189, 203]);
}

#[test]
fn unrecognized_function_has_no_data_type() {
    let m = ModbusMessage::new_write_message(1, 0x7F, 0, 0, Vec::new());
    assert_eq!(m.function, FunctionTypes::Unknown);
    assert_eq!(m.data_type, DataTypes::Unknown);
}

#[test]
fn crc_recomputation_matches_stored() {
    let a = ModbusMessage::new_write_message(9, 0x06, 0x0102, 1, vec![0x30, 0x39]);
    let b = ModbusMessage::new_write_message(9, 0x06, 0x0102, 1, vec![0x30, 0x39]);
    assert_eq!(a.crc, b.crc);
}

#[test]
fn sent_read_request_parses() {
    let m = ModbusMessage::sent_from_data(vec![1, 3, 0, 0, 0, 2, 196, 11]).expect("parse");
    assert_eq!(m.address, 1);
    assert_eq!(m.function, FunctionTypes::ReadHoldingRegisters);
    assert_eq!(m.start_address, 0);
    assert_eq!(m.num_data_points, 2);
    assert_eq!(m.crc, [196, 11]);
    assert!(m.data.is_empty());
}

#[test]
fn sent_write_request_parses() {
    let m = ModbusMessage::sent_from_data(vec![1, 5, 0, 16, 0xFF, 0x00, 141, 255]).expect("parse");
    assert_eq!(m.function, FunctionTypes::WriteSingleCoil);
    assert_eq!(m.start_address, 16);
    assert_eq!(m.data, vec![0xFF, 0x00]);
    assert_eq!(m.crc, [141, 255]);
}

#[test]
fn sent_truncated_fails() {
    let e = ModbusMessage::sent_from_data(vec![1, 3, 0, 0, 0]).unwrap_err();
    assert_eq!(e, DecodeError::InsufficientData);
}

#[test]
fn received_read_response_parses() {
    // byte count 4 announces two big-endian words
    let m = ModbusMessage::received_from_data(vec![1, 3, 4, 0x00, 0x2A, 0x01, 0x00, 218, 107])
        .expect("parse");
    assert_eq!(m.address, 1);
    assert_eq!(m.function, FunctionTypes::ReadHoldingRegisters);
    assert_eq!(m.data, vec![0x00, 0x2A, 0x01, 0x00]);
    assert_eq!(m.crc, [218, 107]);
}

#[test]
fn received_write_response_parses() {
    let m = ModbusMessage::received_from_data(vec![1, 6, 0x01, 0x02, 0x30, 0x39, 7, 8])
        .expect("parse");
    assert_eq!(m.function, FunctionTypes::WriteSingleRegister);
    assert_eq!(m.start_address, 0x0102);
    assert_eq!(m.data, vec![0x30, 0x39]);
}

#[test]
fn received_multi_write_parses_structurally_only() {
    // start address and count are read; the value payload is not decoded
    let m = ModbusMessage::received_from_data(vec![1, 0x16, 0x00, 0x10, 0x00, 0x02, 7, 8])
        .expect("parse");
    assert_eq!(m.function, FunctionTypes::WriteMultipleRegisters);
    assert_eq!(m.start_address, 0x0010);
    assert_eq!(m.num_data_points, 2);
    assert!(m.data.is_empty());
}

#[test]
fn received_truncated_fails() {
    let e = ModbusMessage::received_from_data(vec![1, 3, 4, 0x00]).unwrap_err();
    assert_eq!(e, DecodeError::InsufficientData);
}
