//! Modbus payload codec: request/response byte sequences carried inside a
//! frame's payload, with CRC16 arithmetic over the reflected polynomial
//! 0xA001.

use vstd::prelude::*;

use crate::errors::DecodeError;
use crate::packet::{push_bytes, read_vec, u16_of};

verus! {

/// The Modbus function codes this codec understands.
#[derive(Clone, Copy, Debug, PartialEq, Eq, Structural)]
pub enum FunctionTypes {
    ReadCoilStatus,
    ReadInputStatus,
    ReadHoldingRegisters,
    ReadInputRegisters,
    WriteSingleCoil,
    WriteSingleRegister,
    WriteMultipleCoils,
    WriteMultipleRegisters,
    Unknown,
}

/// The kind of data point a function addresses.
#[derive(Clone, Copy, Debug, PartialEq, Eq, Structural)]
pub enum DataTypes {
    Coil,
    Input,
    Register,
    Unknown,
}

/// A logical Modbus transaction carried inside a frame payload.
#[derive(Debug)]
pub struct ModbusMessage {
    pub address: u8,
    pub function: FunctionTypes,
    pub data: Vec<u8>,
    pub crc: [u8; 2],
    pub data_type: DataTypes,
    pub start_address: u16,
    pub num_data_points: u16,
}

/// Function code denoted by a wire byte; unknown bytes map to `Unknown`.
pub open spec fn function_of(val: u8) -> FunctionTypes {
    if val == 0x01 {
        FunctionTypes::ReadCoilStatus
    } else if val == 0x02 {
        FunctionTypes::ReadInputStatus
    } else if val == 0x03 {
        FunctionTypes::ReadHoldingRegisters
    } else if val == 0x04 {
        FunctionTypes::ReadInputRegisters
    } else if val == 0x05 {
        FunctionTypes::WriteSingleCoil
    } else if val == 0x06 {
        FunctionTypes::WriteSingleRegister
    } else if val == 0x15 {
        FunctionTypes::WriteMultipleCoils
    } else if val == 0x16 {
        FunctionTypes::WriteMultipleRegisters
    } else {
        FunctionTypes::Unknown
    }
}

/// Wire byte of each function code; the unrecognized code serializes as the
/// discriminant following the last supported one.
pub open spec fn spec_function_byte(f: FunctionTypes) -> u8 {
    match f {
        FunctionTypes::ReadCoilStatus => 0x01,
        FunctionTypes::ReadInputStatus => 0x02,
        FunctionTypes::ReadHoldingRegisters => 0x03,
        FunctionTypes::ReadInputRegisters => 0x04,
        FunctionTypes::WriteSingleCoil => 0x05,
        FunctionTypes::WriteSingleRegister => 0x06,
        FunctionTypes::WriteMultipleCoils => 0x15,
        FunctionTypes::WriteMultipleRegisters => 0x16,
        FunctionTypes::Unknown => 0x17,
    }
}

/// The data-point kind each function code addresses.
pub open spec fn spec_data_type(f: FunctionTypes) -> DataTypes {
    match f {
        FunctionTypes::ReadCoilStatus => DataTypes::Coil,
        FunctionTypes::WriteSingleCoil => DataTypes::Coil,
        FunctionTypes::WriteMultipleCoils => DataTypes::Coil,
        FunctionTypes::ReadInputStatus => DataTypes::Input,
        FunctionTypes::WriteSingleRegister => DataTypes::Register,
        FunctionTypes::WriteMultipleRegisters => DataTypes::Register,
        FunctionTypes::ReadHoldingRegisters => DataTypes::Register,
        FunctionTypes::ReadInputRegisters => DataTypes::Register,
        FunctionTypes::Unknown => DataTypes::Unknown,
    }
}

/// Whether a point-count field follows the start address in the CRC input:
/// every read function and the multi-point writes carry one, matching the
/// wire form.
pub open spec fn crc_has_count(f: FunctionTypes) -> bool {
    match f {
        FunctionTypes::ReadCoilStatus => true,
        FunctionTypes::ReadHoldingRegisters => true,
        FunctionTypes::ReadInputRegisters => true,
        FunctionTypes::ReadInputStatus => true,
        FunctionTypes::WriteMultipleCoils => true,
        FunctionTypes::WriteMultipleRegisters => true,
        _ => false,
    }
}

/// Whether inline write data follows in the CRC input and on the wire.
pub open spec fn has_write_data(f: FunctionTypes) -> bool {
    match f {
        FunctionTypes::WriteSingleCoil => true,
        FunctionTypes::WriteSingleRegister => true,
        FunctionTypes::WriteMultipleCoils => true,
        FunctionTypes::WriteMultipleRegisters => true,
        _ => false,
    }
}

/// Whether a read function's request carries a point count on the wire.
pub open spec fn is_read_fn(f: FunctionTypes) -> bool {
    match f {
        FunctionTypes::ReadCoilStatus => true,
        FunctionTypes::ReadHoldingRegisters => true,
        FunctionTypes::ReadInputRegisters => true,
        FunctionTypes::ReadInputStatus => true,
        _ => false,
    }
}

/// One CRC16 shift step: shift right, folding in the reflected polynomial
/// 0xA001 when the low bit was set.
pub open spec fn crc_bit(c: u16) -> u16 {
    if c & 1 == 1 {
        (c >> 1) ^ 0xA001
    } else {
        c >> 1
    }
}

/// `n` CRC16 shift steps.
pub open spec fn crc_bits(c: u16, n: nat) -> u16
    decreases n,
{
    if n == 0 {
        c
    } else {
        crc_bits(crc_bit(c), (n - 1) as nat)
    }
}

/// One byte folded into the CRC16: xor into the low byte, then eight shift
/// steps.
pub open spec fn crc_byte(c: u16, b: u8) -> u16 {
    crc_bits(c ^ (b as u16), 8)
}

/// CRC16 of a byte sequence continued from an accumulator.
pub open spec fn crc16_from(c: u16, s: Seq<u8>) -> u16
    decreases s.len(),
{
    if s.len() == 0 {
        c
    } else {
        crc16_from(crc_byte(c, s[0]), s.skip(1))
    }
}

/// The bytes the CRC is computed over: address, function, start address,
/// then a point count or inline write data depending on the function.
pub open spec fn crc_input(m: ModbusMessage) -> Seq<u8> {
    let head = seq![
        m.address,
        spec_function_byte(m.function),
        (m.start_address / 256) as u8,
        (m.start_address % 256) as u8,
    ];
    let with_count = if crc_has_count(m.function) {
        head + seq![(m.num_data_points / 256) as u8, (m.num_data_points % 256) as u8]
    } else {
        head
    };
    if has_write_data(m.function) {
        with_count + m.data@
    } else {
        with_count
    }
}

/// Stored form of the CRC: low byte first.
pub open spec fn spec_crc(m: ModbusMessage) -> Seq<u8> {
    let c = crc16_from(0xFFFF, crc_input(m));
    seq![(c % 256) as u8, (c / 256) as u8]
}

/// Wire form of a message: address, function, start address, then a point
/// count for read and multi-write functions, inline data for write
/// functions, and the stored CRC bytes last.
pub open spec fn spec_mb_bytes(m: ModbusMessage) -> Seq<u8> {
    let head = seq![
        m.address,
        spec_function_byte(m.function),
        (m.start_address / 256) as u8,
        (m.start_address % 256) as u8,
    ];
    let with_count = if m.function == FunctionTypes::WriteSingleCoil || m.function
        == FunctionTypes::WriteSingleRegister || m.function == FunctionTypes::Unknown {
        head
    } else {
        head + seq![(m.num_data_points / 256) as u8, (m.num_data_points % 256) as u8]
    };
    let with_data = if has_write_data(m.function) {
        with_count + m.data@
    } else {
        with_count
    };
    with_data + m.crc@
}

impl DataTypes {
    /// The data-point kind denoted by a persisted tag byte.
    pub fn new(v: u8) -> (r: Self)
        ensures
            r == (if v == 0 {
                DataTypes::Coil
            } else if v == 1 {
                DataTypes::Input
            } else if v == 2 {
                DataTypes::Register
            } else {
                DataTypes::Unknown
            }),
    {
        if v == 0 {
            DataTypes::Coil
        } else if v == 1 {
            DataTypes::Input
        } else if v == 2 {
            DataTypes::Register
        } else {
            DataTypes::Unknown
        }
    }
}

impl FunctionTypes {
    /// Function code denoted by a wire byte.
    pub fn new_function_type(val: u8) -> (f: Self)
        ensures
            f == function_of(val),
    {
        if val == 0x01 {
            FunctionTypes::ReadCoilStatus
        } else if val == 0x02 {
            FunctionTypes::ReadInputStatus
        } else if val == 0x03 {
            FunctionTypes::ReadHoldingRegisters
        } else if val == 0x04 {
            FunctionTypes::ReadInputRegisters
        } else if val == 0x05 {
            FunctionTypes::WriteSingleCoil
        } else if val == 0x06 {
            FunctionTypes::WriteSingleRegister
        } else if val == 0x15 {
            FunctionTypes::WriteMultipleCoils
        } else if val == 0x16 {
            FunctionTypes::WriteMultipleRegisters
        } else {
            FunctionTypes::Unknown
        }
    }

    /// Wire byte of this function code.
    pub fn function_byte(self) -> (b: u8)
        ensures
            b == spec_function_byte(self),
    {
        match self {
            FunctionTypes::ReadCoilStatus => 0x01,
            FunctionTypes::ReadInputStatus => 0x02,
            FunctionTypes::ReadHoldingRegisters => 0x03,
            FunctionTypes::ReadInputRegisters => 0x04,
            FunctionTypes::WriteSingleCoil => 0x05,
            FunctionTypes::WriteSingleRegister => 0x06,
            FunctionTypes::WriteMultipleCoils => 0x15,
            FunctionTypes::WriteMultipleRegisters => 0x16,
            FunctionTypes::Unknown => 0x17,
        }
    }

    /// The data-point kind this function code addresses.
    fn to_data_type(self) -> (d: DataTypes)
        ensures
            d == spec_data_type(self),
    {
        match self {
            FunctionTypes::ReadCoilStatus => DataTypes::Coil,
            FunctionTypes::WriteSingleCoil => DataTypes::Coil,
            FunctionTypes::WriteMultipleCoils => DataTypes::Coil,
            FunctionTypes::ReadInputStatus => DataTypes::Input,
            FunctionTypes::WriteSingleRegister => DataTypes::Register,
            FunctionTypes::WriteMultipleRegisters => DataTypes::Register,
            FunctionTypes::ReadHoldingRegisters => DataTypes::Register,
            FunctionTypes::ReadInputRegisters => DataTypes::Register,
            FunctionTypes::Unknown => DataTypes::Unknown,
        }
    }
}

/// CRC16 of a byte sequence: initial value 0xFFFF, one byte folded in per
/// step with the reflected polynomial 0xA001.
fn crc_helper(data: Vec<u8>) -> (r: u16)
    ensures
        r == crc16_from(0xFFFF, data@),
{
    let mut crc_word: u16 = 0xFFFF;
    let mut count: usize = 0;
    proof {
        assert(data@.skip(0) =~= data@);
    }
    while count < data.len()
        invariant
            count <= data@.len(),
            crc16_from(crc_word, data@.skip(count as int)) == crc16_from(0xFFFF, data@),
        decreases data@.len() - count,
    {
        let b = data[count];
        let mut c: u16 = crc_word ^ (b as u16);
        let ghost c0 = crc_word;
        let mut j: usize = 0;
        while j < 8
            invariant
                j <= 8,
                crc_bits(c, (8 - j) as nat) == crc_byte(c0, b),
            decreases 8 - j,
        {
            if c & 1 == 1 {
                c = (c >> 1) ^ 0xA001;
            } else {
                c = c >> 1;
            }
            j = j + 1;
        }
        proof {
            assert(data@.skip(count as int)[0] == data@[count as int]);
            assert(data@.skip(count as int).skip(1) =~= data@.skip(count + 1));
        }
        crc_word = c;
        count = count + 1;
    }
    proof {
        assert(data@.skip(data@.len() as int) =~= Seq::<u8>::empty());
    }
    crc_word
}

/// Stored CRC of a message: the CRC16 over the type-specific field subset,
/// low byte first.
fn calculate_crc(message: &ModbusMessage) -> (ret: [u8; 2])
    ensures
        ret@ == spec_crc(*message),
{
    let mut data: Vec<u8> = Vec::new();
    data.push(message.address);
    data.push(message.function.function_byte());
    data.push((message.start_address / 256) as u8);
    data.push((message.start_address % 256) as u8);
    match message.function {
        FunctionTypes::ReadCoilStatus
        | FunctionTypes::ReadHoldingRegisters
        | FunctionTypes::ReadInputRegisters
        | FunctionTypes::ReadInputStatus
        | FunctionTypes::WriteMultipleCoils
        | FunctionTypes::WriteMultipleRegisters => {
            data.push((message.num_data_points / 256) as u8);
            data.push((message.num_data_points % 256) as u8);
        },
        _ => {},
    }
    match message.function {
        FunctionTypes::WriteSingleCoil
        | FunctionTypes::WriteSingleRegister
        | FunctionTypes::WriteMultipleCoils
        | FunctionTypes::WriteMultipleRegisters => {
            push_bytes(&mut data, message.data.as_slice());
        },
        _ => {},
    }
    proof {
        assert(data@ =~= crc_input(*message));
    }
    let c = crc_helper(data);
    let ret: [u8; 2] = [(c % 256) as u8, (c / 256) as u8];
    proof {
        assert(ret@ =~= spec_crc(*message));
    }
    ret
}

impl ModbusMessage {
    /// A write transaction with its CRC computed at construction over the
    /// function's field subset.
    pub fn new_write_message(
        add: u8,
        func: u8,
        start_address: u16,
        num_data_points: u16,
        write_data: Vec<u8>,
    ) -> (r: Self)
        ensures
            r.address == add,
            r.function == function_of(func),
            r.start_address == start_address,
            r.num_data_points == num_data_points,
            r.data@ == write_data@,
            r.data_type == spec_data_type(function_of(func)),
            r.crc@ == spec_crc(r),
    {
        let function = FunctionTypes::new_function_type(func);
        let data_type = function.to_data_type();
        let mut message = ModbusMessage {
            start_address,
            address: add,
            function,
            data: write_data,
            crc: [0, 0],
            num_data_points,
            data_type,
        };
        let new_crc = calculate_crc(&message);
        message.crc = new_crc;
        message
    }

    /// A read transaction with its CRC computed at construction over the
    /// function's field subset.
    pub fn new_read_message(add: u8, func: u8, start_address: u16, num_data_points: u16) -> (r:
        Self)
        ensures
            r.address == add,
            r.function == function_of(func),
            r.start_address == start_address,
            r.num_data_points == num_data_points,
            r.data@ == Seq::<u8>::empty(),
            r.data_type == spec_data_type(function_of(func)),
            r.crc@ == spec_crc(r),
    {
        ModbusMessage::new_write_message(add, func, start_address, num_data_points, Vec::new())
    }

    /// Wire form of this message: fields in the order the decoders consume
    /// them, stored CRC bytes last.
    pub fn as_bytes(&self) -> (r: Vec<u8>)
        ensures
            r@ == spec_mb_bytes(*self),
    {
        let mut data: Vec<u8> = Vec::new();
        data.push(self.address);
        data.push(self.function.function_byte());
        data.push((self.start_address / 256) as u8);
        data.push((self.start_address % 256) as u8);
        match self.function {
            FunctionTypes::WriteSingleCoil | FunctionTypes::WriteSingleRegister
            | FunctionTypes::Unknown => {},
            FunctionTypes::ReadCoilStatus
            | FunctionTypes::ReadHoldingRegisters
            | FunctionTypes::ReadInputRegisters
            | FunctionTypes::ReadInputStatus
            | FunctionTypes::WriteMultipleCoils
            | FunctionTypes::WriteMultipleRegisters => {
                data.push((self.num_data_points / 256) as u8);
                data.push((self.num_data_points % 256) as u8);
            },
        }
        match self.function {
            FunctionTypes::WriteSingleCoil
            | FunctionTypes::WriteSingleRegister
            | FunctionTypes::WriteMultipleCoils
            | FunctionTypes::WriteMultipleRegisters => {
                push_bytes(&mut data, self.data.as_slice());
            },
            _ => {},
        }
        push_bytes(&mut data, self.crc.as_slice());
        proof {
            assert(data@ =~= spec_mb_bytes(*self));
        }
        data
    }
}


/// Bytes a request parse needs: header and start address, then a point
/// count or two inline data bytes depending on the function, then the CRC.
pub open spec fn sent_needed(s: Seq<u8>) -> int {
    if s.len() < 2 {
        2
    } else {
        let f = function_of(s[1]);
        if is_read_fn(f) || f == FunctionTypes::WriteSingleCoil || f
            == FunctionTypes::WriteSingleRegister {
            8
        } else {
            6
        }
    }
}

/// Bytes a response parse needs: for read functions a byte count at offset 2
/// decides; write functions are fixed-width; unknown functions carry only
/// the CRC after the header.
pub open spec fn recv_needed(s: Seq<u8>) -> int {
    if s.len() < 2 {
        2
    } else {
        let f = function_of(s[1]);
        if is_read_fn(f) {
            if s.len() < 3 {
                3
            } else {
                5 + s[2]
            }
        } else if has_write_data(f) {
            8
        } else {
            4
        }
    }
}

/// The data bytes a response parse yields: the announced run for read
/// functions, the echoed value pair for single-point writes, nothing
/// otherwise.
pub open spec fn recv_parsed_data(s: Seq<u8>) -> Seq<u8> {
    let f = function_of(s[1]);
    if is_read_fn(f) {
        s.subrange(3, 3 + s[2])
    } else if f == FunctionTypes::WriteSingleCoil || f == FunctionTypes::WriteSingleRegister {
        seq![s[4], s[5]]
    } else {
        Seq::empty()
    }
}

impl ModbusMessage {
    /// Parses an outbound request byte sequence: address, function, start
    /// address, then a point count for read functions or two inline data
    /// bytes for single-point writes, then the CRC. Multi-point write
    /// bodies are not parsed beyond the header.
    pub fn sent_from_data(src: Vec<u8>) -> (r: Result<Self, DecodeError>)
        ensures
            r is Ok <==> src@.len() >= sent_needed(src@),
            r matches Err(e) ==> e == DecodeError::InsufficientData,
            r matches Ok(m) ==> {
                let f = function_of(src@[1]);
                &&& m.address == src@[0]
                &&& m.function == f
                &&& m.data_type == spec_data_type(f)
                &&& m.start_address == u16_of(src@[2], src@[3])
                &&& if is_read_fn(f) {
                    &&& m.num_data_points == u16_of(src@[4], src@[5])
                    &&& m.data@ == Seq::<u8>::empty()
                    &&& m.crc@ == seq![src@[6], src@[7]]
                } else if f == FunctionTypes::WriteSingleCoil || f
                    == FunctionTypes::WriteSingleRegister {
                    &&& m.num_data_points == 0
                    &&& m.data@ == seq![src@[4], src@[5]]
                    &&& m.crc@ == seq![src@[6], src@[7]]
                } else {
                    &&& m.num_data_points == 0
                    &&& m.data@ == Seq::<u8>::empty()
                    &&& m.crc@ == seq![src@[4], src@[5]]
                }
            },
    {
        let n = src.len();
        if n < 2 {
            return Err(DecodeError::InsufficientData);
        }
        let add = src[0];
        let func = FunctionTypes::new_function_type(src[1]);
        let data_type = func.to_data_type();
        match func {
            FunctionTypes::ReadCoilStatus
            | FunctionTypes::ReadHoldingRegisters
            | FunctionTypes::ReadInputRegisters
            | FunctionTypes::ReadInputStatus => {
                if n < 8 {
                    return Err(DecodeError::InsufficientData);
                }
                let m = ModbusMessage {
                    address: add,
                    function: func,
                    data: Vec::new(),
                    crc: [src[6], src[7]],
                    data_type,
                    start_address: (src[2] as u16) * 256 + (src[3] as u16),
                    num_data_points: (src[4] as u16) * 256 + (src[5] as u16),
                };
                proof {
                    assert(m.crc@ =~= seq![src@[6], src@[7]]);
                }
                Ok(m)
            },
            FunctionTypes::WriteSingleCoil | FunctionTypes::WriteSingleRegister => {
                if n < 8 {
                    return Err(DecodeError::InsufficientData);
                }
                let mut data_vec: Vec<u8> = Vec::new();
                data_vec.push(src[4]);
                data_vec.push(src[5]);
                let m = ModbusMessage {
                    address: add,
                    function: func,
                    data: data_vec,
                    crc: [src[6], src[7]],
                    data_type,
                    start_address: (src[2] as u16) * 256 + (src[3] as u16),
                    num_data_points: 0,
                };
                proof {
                    assert(m.crc@ =~= seq![src@[6], src@[7]]);
                    assert(m.data@ =~= seq![src@[4], src@[5]]);
                }
                Ok(m)
            },
            _ => {
                if n < 6 {
                    return Err(DecodeError::InsufficientData);
                }
                let m = ModbusMessage {
                    address: add,
                    function: func,
                    data: Vec::new(),
                    crc: [src[4], src[5]],
                    data_type,
                    start_address: (src[2] as u16) * 256 + (src[3] as u16),
                    num_data_points: 0,
                };
                proof {
                    assert(m.crc@ =~= seq![src@[4], src@[5]]);
                }
                Ok(m)
            },
        }
    }

    /// Parses an inbound response byte sequence: for read functions a byte
    /// count announces the data run; single-point writes echo address and
    /// value; multi-point writes are parsed only to their start address and
    /// count, their value payload is not decoded.
    pub fn received_from_data(message_vec: Vec<u8>) -> (r: Result<Self, DecodeError>)
        ensures
            r is Ok <==> message_vec@.len() >= recv_needed(message_vec@),
            r matches Err(e) ==> e == DecodeError::InsufficientData,
            r matches Ok(m) ==> {
                let s = message_vec@;
                let f = function_of(s[1]);
                &&& m.address == s[0]
                &&& m.function == f
                &&& m.data_type == spec_data_type(f)
                &&& if is_read_fn(f) {
                    let bc = s[2] as int;
                    &&& m.start_address == 0
                    &&& m.num_data_points == 0
                    &&& m.data@ == s.subrange(3, 3 + bc)
                    &&& m.crc@ == seq![s[3 + bc], s[4 + bc]]
                } else if f == FunctionTypes::WriteSingleCoil || f
                    == FunctionTypes::WriteSingleRegister {
                    &&& m.start_address == u16_of(s[2], s[3])
                    &&& m.num_data_points == 0
                    &&& m.data@ == seq![s[4], s[5]]
                    &&& m.crc@ == seq![s[6], s[7]]
                } else if f == FunctionTypes::WriteMultipleCoils || f
                    == FunctionTypes::WriteMultipleRegisters {
                    &&& m.start_address == u16_of(s[2], s[3])
                    &&& m.num_data_points == u16_of(s[4], s[5])
                    &&& m.data@ == Seq::<u8>::empty()
                    &&& m.crc@ == seq![s[6], s[7]]
                } else {
                    &&& m.start_address == 0
                    &&& m.num_data_points == 0
                    &&& m.data@ == Seq::<u8>::empty()
                    &&& m.crc@ == seq![s[2], s[3]]
                }
            },
    {
        let n = message_vec.len();
        if n < 2 {
            return Err(DecodeError::InsufficientData);
        }
        let add = message_vec[0];
        let func = FunctionTypes::new_function_type(message_vec[1]);
        let data_type = func.to_data_type();
        match func {
            FunctionTypes::ReadCoilStatus
            | FunctionTypes::ReadHoldingRegisters
            | FunctionTypes::ReadInputRegisters
            | FunctionTypes::ReadInputStatus => {
                if n < 3 {
                    return Err(DecodeError::InsufficientData);
                }
                let bc = message_vec[2] as usize;
                if n < 5 + bc {
                    return Err(DecodeError::InsufficientData);
                }
                let data_vec = read_vec(&message_vec, 3, bc);
                let m = ModbusMessage {
                    address: add,
                    function: func,
                    data: data_vec,
                    crc: [message_vec[3 + bc], message_vec[4 + bc]],
                    data_type,
                    start_address: 0,
                    num_data_points: 0,
                };
                proof {
                    assert(m.crc@ =~= seq![
                        message_vec@[3 + bc as int],
                        message_vec@[4 + bc as int],
                    ]);
                }
                Ok(m)
            },
            FunctionTypes::WriteSingleCoil | FunctionTypes::WriteSingleRegister => {
                if n < 8 {
                    return Err(DecodeError::InsufficientData);
                }
                let mut data_vec: Vec<u8> = Vec::new();
                data_vec.push(message_vec[4]);
                data_vec.push(message_vec[5]);
                let m = ModbusMessage {
                    address: add,
                    function: func,
                    data: data_vec,
                    crc: [message_vec[6], message_vec[7]],
                    data_type,
                    start_address: (message_vec[2] as u16) * 256 + (message_vec[3] as u16),
                    num_data_points: 0,
                };
                proof {
                    assert(m.crc@ =~= seq![message_vec@[6], message_vec@[7]]);
                    assert(m.data@ =~= seq![message_vec@[4], message_vec@[5]]);
                }
                Ok(m)
            },
            FunctionTypes::WriteMultipleCoils | FunctionTypes::WriteMultipleRegisters => {
                if n < 8 {
                    return Err(DecodeError::InsufficientData);
                }
                let m = ModbusMessage {
                    address: add,
                    function: func,
                    data: Vec::new(),
                    crc: [message_vec[6], message_vec[7]],
                    data_type,
                    start_address: (message_vec[2] as u16) * 256 + (message_vec[3] as u16),
                    num_data_points: (message_vec[4] as u16) * 256 + (message_vec[5] as u16),
                };
                proof {
                    assert(m.crc@ =~= seq![message_vec@[6], message_vec@[7]]);
                }
                Ok(m)
            },
            _ => {
                if n < 4 {
                    return Err(DecodeError::InsufficientData);
                }
                let m = ModbusMessage {
                    address: add,
                    function: func,
                    data: Vec::new(),
                    crc: [message_vec[2], message_vec[3]],
                    data_type,
                    start_address: 0,
                    num_data_points: 0,
                };
                proof {
                    assert(m.crc@ =~= seq![message_vec@[2], message_vec@[3]]);
                }
                Ok(m)
            },
        }
    }
}

} // verus!
