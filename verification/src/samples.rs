//! Sample model: typed, timestamped domain readings decoded from a matched
//! (request, response) frame pair, with a flat persistence encoding and a
//! content-derived lookup key.

use vstd::prelude::*;

use crate::errors::DecodeError;
use crate::modbus;
use crate::modbus::{DataTypes, FunctionTypes, ModbusMessage};
use crate::packet::{push_bytes, Packet};

verus! {

#[verifier::external_type_specification]
#[verifier::external_body]
pub struct ExSystemTime(std::time::SystemTime);

/// Relies on std::time::SystemTime::now for the current wall-clock instant.
#[verifier::external_body]
fn system_now() -> std::time::SystemTime {
    std::time::SystemTime::now()
}

/// Relies on SystemTime::duration_since and Duration::as_millis:
/// milliseconds from the Unix epoch to the given instant, zero for an
/// instant before the epoch.
#[verifier::external_body]
pub fn time_as_millis(now: std::time::SystemTime) -> u128 {
    match now.duration_since(std::time::UNIX_EPOCH) {
        Ok(d) => d.as_millis(),
        Err(_) => 0,
    }
}

/// Relies on Duration::from_millis and SystemTime::checked_add: the instant
/// the given milliseconds after the Unix epoch; millisecond counts beyond
/// 64 bits are truncated, and the epoch itself stands in where the platform
/// cannot represent the instant.
#[verifier::external_body]
pub fn time_from_millis(millis_since_epoch: u128) -> std::time::SystemTime {
    let d = std::time::Duration::from_millis(millis_since_epoch as u64);
    match std::time::UNIX_EPOCH.checked_add(d) {
        Some(t) => t,
        None => std::time::UNIX_EPOCH,
    }
}

/// Milliseconds since the Unix epoch, now.
pub(crate) fn now_millis() -> u128 {
    time_as_millis(system_now())
}

/// Content hash of an encoded sample, used as a secondary, non-unique
/// lookup key beside the primary encoded-bytes key.
pub uninterp spec fn hash_of(bytes: Seq<u8>) -> u64;

/// Relies on std::collections::hash_map::DefaultHasher: hashers made by
/// `new` are documented to start from the same state, so the digest depends
/// on the hashed bytes alone.
#[verifier::external_body]
fn calculate_hash(t: &Vec<u8>) -> (r: u64)
    ensures
        r == hash_of(t@),
{
    let mut s = std::collections::hash_map::DefaultHasher::new();
    std::hash::Hash::hash(t, &mut s);
    std::hash::Hasher::finish(&s)
}


/// The reading kinds a power meter reports.
#[derive(Clone, Copy, Debug, PartialEq, Eq, Structural)]
pub enum MeterDataTypes {
    Power,
    Voltage,
    Current,
    PowerFactor,
    Unknown,
}

/// Reading kind denoted by a persisted tag byte.
pub open spec fn meter_data_type_of(input: u8) -> MeterDataTypes {
    if input == 0 {
        MeterDataTypes::Power
    } else if input == 1 {
        MeterDataTypes::Voltage
    } else if input == 2 {
        MeterDataTypes::Current
    } else if input == 3 {
        MeterDataTypes::PowerFactor
    } else {
        MeterDataTypes::Unknown
    }
}

/// Persisted tag byte of each reading kind.
pub open spec fn spec_meter_type_byte(t: MeterDataTypes) -> u8 {
    match t {
        MeterDataTypes::Power => 0,
        MeterDataTypes::Voltage => 1,
        MeterDataTypes::Current => 2,
        MeterDataTypes::PowerFactor => 3,
        MeterDataTypes::Unknown => 4,
    }
}

impl MeterDataTypes {
    /// Reading kind denoted by a persisted tag byte.
    pub fn new(input: u8) -> (t: Self)
        ensures
            t == meter_data_type_of(input),
    {
        if input == 0 {
            MeterDataTypes::Power
        } else if input == 1 {
            MeterDataTypes::Voltage
        } else if input == 2 {
            MeterDataTypes::Current
        } else if input == 3 {
            MeterDataTypes::PowerFactor
        } else {
            MeterDataTypes::Unknown
        }
    }

    /// Persisted tag byte of this reading kind.
    pub fn type_byte(self) -> (b: u8)
        ensures
            b == spec_meter_type_byte(self),
    {
        match self {
            MeterDataTypes::Power => 0,
            MeterDataTypes::Voltage => 1,
            MeterDataTypes::Current => 2,
            MeterDataTypes::PowerFactor => 3,
            MeterDataTypes::Unknown => 4,
        }
    }
}

/// A decoded power-meter reading: 24 values scaled by 20.
#[derive(Debug)]
pub struct MeterSample {
    pub timestamp: u128,
    pub hardware_id: [u8; 8],
    pub data_type: MeterDataTypes,
    pub values: Vec<u16>,
}

/// A decoded Modbus bridge reading.
#[derive(Debug)]
pub struct BridgeSample {
    pub timestamp: u128,
    pub hardware_id: [u8; 8],
    pub start_address: u16,
    pub function: FunctionTypes,
    pub values: Vec<u16>,
    pub device_address: u8,
}

/// A decoded pulse-counter reading: six big-endian 16-bit counters.
#[derive(Clone, Copy, Debug)]
pub struct PulseSample {
    pub timestamp: u128,
    pub hardware_id: [u8; 8],
    pub pulses: [u16; 6],
}

/// The sample classes the system produces.
#[derive(Clone, Copy, Debug, PartialEq, Eq, Structural)]
pub enum SampleTypes {
    Meter,
    Bridge,
    Pulse,
    Unknown,
}

/// A decoded domain reading of any class.
#[derive(Debug)]
pub enum Sample {
    Meter(MeterSample),
    Bridge(BridgeSample),
    Pulse(PulseSample),
    Unknown,
}

/// A 128-bit value as sixteen little-endian bytes.
pub open spec fn le16_bytes(n: u128) -> Seq<u8> {
    seq![
        (n % 256) as u8,
        ((n / 0x100) % 256) as u8,
        ((n / 0x10000) % 256) as u8,
        ((n / 0x1000000) % 256) as u8,
        ((n / 0x100000000) % 256) as u8,
        ((n / 0x10000000000) % 256) as u8,
        ((n / 0x1000000000000) % 256) as u8,
        ((n / 0x100000000000000) % 256) as u8,
        ((n / 0x10000000000000000) % 256) as u8,
        ((n / 0x1000000000000000000) % 256) as u8,
        ((n / 0x100000000000000000000) % 256) as u8,
        ((n / 0x10000000000000000000000) % 256) as u8,
        ((n / 0x1000000000000000000000000) % 256) as u8,
        ((n / 0x100000000000000000000000000) % 256) as u8,
        ((n / 0x10000000000000000000000000000) % 256) as u8,
        ((n / 0x1000000000000000000000000000000) % 256) as u8,
    ]
}

/// The 128-bit value sixteen little-endian bytes denote.
pub open spec fn le128(s: Seq<u8>) -> u128
    recommends
        s.len() == 16,
{
    (s[0] + s[1] * 0x100 + s[2] * 0x10000 + s[3] * 0x1000000 + s[4] * 0x100000000 + s[5]
        * 0x10000000000 + s[6] * 0x1000000000000 + s[7] * 0x100000000000000 + s[8]
        * 0x10000000000000000 + s[9] * 0x1000000000000000000 + s[10] * 0x100000000000000000000 + s[11]
        * 0x10000000000000000000000 + s[12] * 0x1000000000000000000000000 + s[13]
        * 0x100000000000000000000000000 + s[14] * 0x10000000000000000000000000000 + s[15]
        * 0x1000000000000000000000000000000) as u128
}

/// 16-bit values as big-endian byte pairs, high byte first.
pub open spec fn be_words(vs: Seq<u16>) -> Seq<u8> {
    Seq::new(
        (2 * vs.len()) as nat,
        |i: int|
            if i % 2 == 0 {
                (vs[i / 2] / 256) as u8
            } else {
                (vs[i / 2] % 256) as u8
            },
    )
}

/// Appends a 128-bit value as sixteen little-endian bytes.
fn push_le16(v: &mut Vec<u8>, n: u128)
    ensures
        final(v)@ == old(v)@ + le16_bytes(n),
{
    v.push((n % 256) as u8);
    v.push(((n / 0x100) % 256) as u8);
    v.push(((n / 0x10000) % 256) as u8);
    v.push(((n / 0x1000000) % 256) as u8);
    v.push(((n / 0x100000000) % 256) as u8);
    v.push(((n / 0x10000000000) % 256) as u8);
    v.push(((n / 0x1000000000000) % 256) as u8);
    v.push(((n / 0x100000000000000) % 256) as u8);
    v.push(((n / 0x10000000000000000) % 256) as u8);
    v.push(((n / 0x1000000000000000000) % 256) as u8);
    v.push(((n / 0x100000000000000000000) % 256) as u8);
    v.push(((n / 0x10000000000000000000000) % 256) as u8);
    v.push(((n / 0x1000000000000000000000000) % 256) as u8);
    v.push(((n / 0x100000000000000000000000000) % 256) as u8);
    v.push(((n / 0x10000000000000000000000000000) % 256) as u8);
    v.push(((n / 0x1000000000000000000000000000000) % 256) as u8);
    proof {
        assert(v@ =~= old(v)@ + le16_bytes(n));
    }
}

/// Reads sixteen little-endian bytes as a 128-bit value.
fn read_le16(s: &Vec<u8>, off: usize) -> (r: u128)
    requires
        off + 16 <= s@.len(),
    ensures
        r == le128(s@.subrange(off as int, off as int + 16)),
{
    let cap: usize = s.len();
    let r: u128 = (s[off] as u128) + (s[off + 1] as u128) * 0x100 + (s[off + 2] as u128) * 0x10000
        + (s[off + 3] as u128) * 0x1000000 + (s[off + 4] as u128) * 0x100000000 + (s[off
        + 5] as u128) * 0x10000000000 + (s[off + 6] as u128) * 0x1000000000000 + (s[off
        + 7] as u128) * 0x100000000000000 + (s[off + 8] as u128) * 0x10000000000000000 + (s[off
        + 9] as u128) * 0x1000000000000000000 + (s[off + 10] as u128) * 0x100000000000000000000 + (
    s[off + 11] as u128) * 0x10000000000000000000000 + (s[off + 12] as u128)
        * 0x1000000000000000000000000 + (s[off + 13] as u128) * 0x100000000000000000000000000 + (
    s[off + 14] as u128) * 0x10000000000000000000000000000 + (s[off + 15] as u128)
        * 0x1000000000000000000000000000000;
    proof {
        assert(r == le128(s@.subrange(off as int, off as int + 16)));
    }
    r
}

/// Appends 16-bit values as big-endian byte pairs.
fn push_be_words(v: &mut Vec<u8>, vs: &Vec<u16>)
    ensures
        final(v)@ == old(v)@ + be_words(vs@),
{
    let mut i: usize = 0;
    while i < vs.len()
        invariant
            i <= vs@.len(),
            v@ == old(v)@ + be_words(vs@.take(i as int)),
        decreases vs@.len() - i,
    {
        v.push((vs[i] / 256) as u8);
        v.push((vs[i] % 256) as u8);
        proof {
            assert(v@ =~= old(v)@ + be_words(vs@.take(i + 1)));
        }
        i = i + 1;
    }
    proof {
        assert(vs@.take(vs@.len() as int) =~= vs@);
        assert(v@ =~= old(v)@ + be_words(vs@));
    }
}

/// Reads `n` big-endian 16-bit words starting at `off`.
fn read_be_words(s: &Vec<u8>, off: usize, n: usize) -> (r: Vec<u16>)
    requires
        off + 2 * n <= s@.len(),
    ensures
        r@.len() == n,
        forall|i: int|
            0 <= i < n ==> r@[i] == crate::packet::u16_of(
                s@[off + 2 * i],
                s@[off + 2 * i + 1],
            ),
{
    let cap: usize = s.len();
    let mut r: Vec<u16> = Vec::new();
    let mut i: usize = 0;
    while i < n
        invariant
            i <= n,
            off + 2 * n <= s@.len(),
            s@.len() <= usize::MAX,
            r@.len() == i,
            forall|k: int|
                0 <= k < i ==> r@[k] == crate::packet::u16_of(s@[off + 2 * k], s@[off + 2 * k + 1]),
        decreases n - i,
    {
        let w: u16 = (s[off + 2 * i] as u16) * 256 + (s[off + 2 * i + 1] as u16);
        r.push(w);
        i = i + 1;
    }
    r
}


/// One decoded meter value: each packed triplet of payload bytes yields two
/// raw 12-bit readings, scaled by 20 with 16-bit wraparound.
pub open spec fn spec_meter_value(data: Seq<u8>, i: int) -> u16 {
    let t = i / 2;
    if i % 2 == 0 {
        ((20 * (data[3 * t] * 16 + data[3 * t + 1] / 16)) % 0x10000) as u16
    } else {
        ((20 * ((data[3 * t + 1] % 16) * 256 + data[3 * t + 2])) % 0x10000) as u16
    }
}

/// The 24 decoded meter values of a 12-triplet payload.
pub open spec fn spec_meter_values(data: Seq<u8>) -> Seq<u16> {
    Seq::new(24, |i: int| spec_meter_value(data, i))
}

/// Persisted form of a meter sample: timestamp, hardware id, reading-kind
/// byte, then the values as big-endian pairs.
pub open spec fn spec_meter_ivec(s: MeterSample) -> Seq<u8> {
    le16_bytes(s.timestamp) + s.hardware_id@ + seq![spec_meter_type_byte(s.data_type)] + be_words(
        s.values@,
    )
}

impl MeterSample {
    /// A meter sample with no readings, dated at the epoch.
    pub fn new_empty() -> (r: Self)
        ensures
            r.timestamp == 0,
            r.hardware_id@ == seq![0u8, 0u8, 0u8, 0u8, 0u8, 0u8, 0u8, 0u8],
            r.data_type == MeterDataTypes::Unknown,
            r.values@.len() == 0,
    {
        let r = MeterSample {
            timestamp: 0,
            hardware_id: [0, 0, 0, 0, 0, 0, 0, 0],
            data_type: MeterDataTypes::Unknown,
            values: Vec::new(),
        };
        proof {
            assert(r.hardware_id@ =~= seq![0u8, 0u8, 0u8, 0u8, 0u8, 0u8, 0u8, 0u8]);
        }
        r
    }

    /// Decodes a matched meter exchange: the response payload's 12 packed
    /// triplets yield 24 power readings scaled by 20, stamped with the
    /// current time and the responding device's hardware id.
    pub fn new(_sent: Packet, received: Packet) -> (r: Self)
        requires
            received.data@.len() >= 36,
        ensures
            r.hardware_id@ == received.address@,
            r.data_type == MeterDataTypes::Power,
            r.values@ == spec_meter_values(received.data@),
    {
        let ghost d = received.data@;
        let mut values: Vec<u16> = Vec::new();
        let mut i: usize = 0;
        while i < 12
            invariant
                i <= 12,
                received.data@ == d,
                d.len() >= 36,
                values@.len() == 2 * i,
                forall|k: int| 0 <= k < 2 * i ==> values@[k] == spec_meter_value(d, k),
            decreases 12 - i,
        {
            let b0 = received.data[3 * i] as u32;
            let b1 = received.data[3 * i + 1] as u32;
            let b2 = received.data[3 * i + 2] as u32;
            let v0: u16 = ((20 * (b0 * 16 + b1 / 16)) % 0x10000) as u16;
            let v1: u16 = ((20 * ((b1 % 16) * 256 + b2)) % 0x10000) as u16;
            values.push(v0);
            values.push(v1);
            proof {
                assert(values@[2 * i as int] == spec_meter_value(d, 2 * i as int));
                assert(values@[2 * i as int + 1] == spec_meter_value(d, 2 * i as int + 1));
            }
            i = i + 1;
        }
        let timestamp = now_millis();
        let hardware_id = received.address;
        proof {
            assert(values@ =~= spec_meter_values(d));
        }
        MeterSample { timestamp, hardware_id, data_type: MeterDataTypes::Power, values }
    }

    /// Persisted form of this sample and its content-hash lookup key.
    pub fn to_ivec(&self) -> (r: (Vec<u8>, Vec<u8>))
        ensures
            r.0@ == spec_meter_ivec(*self),
            r.1@ == crate::task::le8(hash_of(spec_meter_ivec(*self))),
    {
        let mut vec: Vec<u8> = Vec::new();
        push_le16(&mut vec, self.timestamp);
        push_bytes(&mut vec, self.hardware_id.as_slice());
        vec.push(self.data_type.type_byte());
        push_be_words(&mut vec, &self.values);
        proof {
            assert(vec@ =~= spec_meter_ivec(*self));
        }
        let h = calculate_hash(&vec);
        let mut key: Vec<u8> = Vec::new();
        crate::task::push_le8(&mut key, h);
        proof {
            assert(key@ =~= crate::task::le8(h));
        }
        (vec, key)
    }

    /// A meter sample read back from its persisted form, consuming the
    /// fields in the order they were written.
    pub fn from_ivec(ivec: Vec<u8>) -> (r: Self)
        requires
            ivec@.len() >= 73,
        ensures
            r.timestamp == le128(ivec@.subrange(0, 16)),
            r.hardware_id@ == ivec@.subrange(16, 24),
            r.data_type == meter_data_type_of(ivec@[24]),
            r.values@.len() == 24,
            forall|i: int|
                0 <= i < 24 ==> r.values@[i] == crate::packet::u16_of(
                    ivec@[25 + 2 * i],
                    ivec@[26 + 2 * i],
                ),
    {
        let timestamp = read_le16(&ivec, 0);
        let hw = crate::packet::read_arr8(&ivec, 16);
        let data_type = MeterDataTypes::new(ivec[24]);
        let values = read_be_words(&ivec, 25, 24);
        MeterSample { timestamp, hardware_id: hw, data_type, values }
    }
}

/// Persisted form of a pulse sample: timestamp, hardware id, then the six
/// counters as big-endian pairs.
pub open spec fn spec_pulse_ivec(s: PulseSample) -> Seq<u8> {
    le16_bytes(s.timestamp) + s.hardware_id@ + be_words(s.pulses@)
}

impl PulseSample {
    /// A pulse sample with zeroed counters, dated at the epoch.
    pub fn new_empty() -> (r: Self)
        ensures
            r.timestamp == 0,
            r.hardware_id@ == seq![0u8, 0u8, 0u8, 0u8, 0u8, 0u8, 0u8, 0u8],
            r.pulses@ == seq![0u16, 0u16, 0u16, 0u16, 0u16, 0u16],
    {
        let r = PulseSample {
            timestamp: 0,
            hardware_id: [0, 0, 0, 0, 0, 0, 0, 0],
            pulses: [0, 0, 0, 0, 0, 0],
        };
        proof {
            assert(r.hardware_id@ =~= seq![0u8, 0u8, 0u8, 0u8, 0u8, 0u8, 0u8, 0u8]);
            assert(r.pulses@ =~= seq![0u16, 0u16, 0u16, 0u16, 0u16, 0u16]);
        }
        r
    }

    /// Decodes a matched pulse exchange: six big-endian 16-bit counters
    /// read directly from the response payload.
    pub fn new(_sent: Packet, received: Packet) -> (r: Self)
        requires
            received.data@.len() >= 12,
        ensures
            r.hardware_id@ == received.address@,
            r.pulses@.len() == 6,
            forall|i: int|
                0 <= i < 6 ==> r.pulses@[i] == crate::packet::u16_of(
                    received.data@[2 * i],
                    received.data@[2 * i + 1],
                ),
    {
        let w = read_be_words(&received.data, 0, 6);
        let pulses: [u16; 6] = [w[0], w[1], w[2], w[3], w[4], w[5]];
        PulseSample { timestamp: now_millis(), hardware_id: received.address, pulses }
    }

    /// Persisted form of this sample and its content-hash lookup key.
    pub fn to_ivec(&self) -> (r: (Vec<u8>, Vec<u8>))
        ensures
            r.0@ == spec_pulse_ivec(*self),
            r.1@ == crate::task::le8(hash_of(spec_pulse_ivec(*self))),
    {
        let mut vec: Vec<u8> = Vec::new();
        push_le16(&mut vec, self.timestamp);
        push_bytes(&mut vec, self.hardware_id.as_slice());
        let mut vv: Vec<u16> = Vec::new();
        let mut i: usize = 0;
        while i < 6
            invariant
                i <= 6,
                vv@ == self.pulses@.take(i as int),
            decreases 6 - i,
        {
            vv.push(self.pulses[i]);
            proof {
                assert(vv@ =~= self.pulses@.take(i + 1));
            }
            i = i + 1;
        }
        proof {
            assert(vv@ =~= self.pulses@);
        }
        push_be_words(&mut vec, &vv);
        proof {
            assert(vec@ =~= spec_pulse_ivec(*self));
        }
        let h = calculate_hash(&vec);
        let mut key: Vec<u8> = Vec::new();
        crate::task::push_le8(&mut key, h);
        proof {
            assert(key@ =~= crate::task::le8(h));
        }
        (vec, key)
    }

    /// A pulse sample read back from its persisted form.
    pub fn from_ivec(ivec: Vec<u8>) -> (r: Self)
        requires
            ivec@.len() >= 36,
        ensures
            r.timestamp == le128(ivec@.subrange(0, 16)),
            r.hardware_id@ == ivec@.subrange(16, 24),
            r.pulses@.len() == 6,
            forall|i: int|
                0 <= i < 6 ==> r.pulses@[i] == crate::packet::u16_of(
                    ivec@[24 + 2 * i],
                    ivec@[25 + 2 * i],
                ),
    {
        let timestamp = read_le16(&ivec, 0);
        let hw = crate::packet::read_arr8(&ivec, 16);
        let w = read_be_words(&ivec, 24, 6);
        let pulses: [u16; 6] = [w[0], w[1], w[2], w[3], w[4], w[5]];
        PulseSample { timestamp, hardware_id: hw, pulses }
    }
}


/// The power of two selecting bit `k` of a byte.
pub open spec fn spec_pow2_8(k: int) -> u8 {
    if k == 0 {
        1
    } else if k == 1 {
        2
    } else if k == 2 {
        4
    } else if k == 3 {
        8
    } else if k == 4 {
        16
    } else if k == 5 {
        32
    } else if k == 6 {
        64
    } else {
        128
    }
}

/// Bit `k` of a byte, as a 16-bit value.
pub open spec fn bit_of(b: u8, k: int) -> u16 {
    ((b / spec_pow2_8(k)) % 2) as u16
}

/// The decoded data points of a matched Modbus exchange: for read
/// functions, one bit (coils, inputs) or one big-endian word (registers)
/// per requested point from the response data; for single-point writes,
/// the single written value from the request; nothing for multi-point
/// writes (their payloads are not decoded) or unknown functions.
pub open spec fn spec_bridge_values(
    sf: FunctionTypes,
    rdt: DataTypes,
    num: int,
    swrite: Seq<u8>,
    rdata: Seq<u8>,
) -> Seq<u16> {
    if modbus::is_read_fn(sf) {
        if rdt == DataTypes::Coil || rdt == DataTypes::Input {
            Seq::new(num as nat, |i: int| bit_of(rdata[i / 8], i % 8))
        } else if rdt == DataTypes::Register {
            Seq::new(num as nat, |i: int| crate::packet::u16_of(rdata[2 * i], rdata[2 * i + 1]))
        } else {
            Seq::empty()
        }
    } else if sf == FunctionTypes::WriteSingleCoil {
        seq![if swrite[0] == 0xFF { 1u16 } else { 0u16 }]
    } else if sf == FunctionTypes::WriteSingleRegister {
        seq![crate::packet::u16_of(swrite[0], swrite[1])]
    } else {
        Seq::empty()
    }
}

/// Whether the response carries enough data bytes for the requested
/// points: one bit per point for coils and inputs, one word per point for
/// registers.
pub open spec fn bridge_avail(sf: FunctionTypes, rdt: DataTypes, num: int, rlen: int) -> bool {
    if modbus::is_read_fn(sf) {
        if rdt == DataTypes::Coil || rdt == DataTypes::Input {
            (num + 7) / 8 <= rlen
        } else if rdt == DataTypes::Register {
            2 * num <= rlen
        } else {
            true
        }
    } else {
        true
    }
}

/// Persisted form of a bridge sample: timestamp, hardware id, device
/// address, start address, function byte, then the values as big-endian
/// pairs.
pub open spec fn spec_bridge_ivec(s: BridgeSample) -> Seq<u8> {
    le16_bytes(s.timestamp) + s.hardware_id@ + seq![
        s.device_address,
        (s.start_address / 256) as u8,
        (s.start_address % 256) as u8,
        modbus::spec_function_byte(s.function),
    ] + be_words(s.values@)
}

impl BridgeSample {
    /// A bridge sample with no values, dated at the epoch.
    pub fn new_empty() -> (r: Self)
        ensures
            r.timestamp == 0,
            r.hardware_id@ == seq![0u8, 0u8, 0u8, 0u8, 0u8, 0u8, 0u8, 0u8],
            r.start_address == 0,
            r.function == FunctionTypes::Unknown,
            r.values@.len() == 0,
            r.device_address == 0,
    {
        let r = BridgeSample {
            timestamp: 0,
            hardware_id: [0, 0, 0, 0, 0, 0, 0, 0],
            start_address: 0,
            function: FunctionTypes::Unknown,
            values: Vec::new(),
            device_address: 0,
        };
        proof {
            assert(r.hardware_id@ =~= seq![0u8, 0u8, 0u8, 0u8, 0u8, 0u8, 0u8, 0u8]);
        }
        r
    }

    /// Decodes a matched Modbus bridge exchange: both payloads are parsed
    /// as Modbus messages, and the data points are unpacked as
    /// `spec_bridge_values` states; a payload too short for its own
    /// announced shape fails with `InsufficientData`.
    pub fn new(sent: Packet, received: Packet) -> (r: Result<Self, DecodeError>)
        ensures
            r is Ok <==> received.data@.len() >= modbus::recv_needed(received.data@)
                && sent.data@.len() >= modbus::sent_needed(sent.data@) && bridge_avail(
                modbus::function_of(sent.data@[1]),
                modbus::spec_data_type(modbus::function_of(received.data@[1])),
                crate::packet::u16_of(sent.data@[4], sent.data@[5]) as int,
                modbus::recv_parsed_data(received.data@).len() as int,
            ),
            r matches Err(e) ==> e == DecodeError::InsufficientData,
            r matches Ok(b) ==> {
                let sf = modbus::function_of(sent.data@[1]);
                let rdt = modbus::spec_data_type(modbus::function_of(received.data@[1]));
                &&& b.device_address == sent.data@[0]
                &&& b.function == sf
                &&& b.start_address == crate::packet::u16_of(sent.data@[2], sent.data@[3])
                &&& b.hardware_id@ == received.address@
                &&& b.values@ == spec_bridge_values(
                    sf,
                    rdt,
                    crate::packet::u16_of(sent.data@[4], sent.data@[5]) as int,
                    seq![sent.data@[4], sent.data@[5]],
                    modbus::recv_parsed_data(received.data@),
                )
            },
    {
        let hw: [u8; 8] = received.address;
        let ghost sdata = sent.data@;
        let ghost rdata0 = received.data@;
        let received_modbus = match ModbusMessage::received_from_data(received.data) {
            Ok(m) => m,
            Err(e) => {
                return Err(e);
            },
        };
        let sent_modbus = match ModbusMessage::sent_from_data(sent.data) {
            Ok(m) => m,
            Err(e) => {
                return Err(e);
            },
        };
        let ghost sf = modbus::function_of(sdata[1]);
        let ghost rdt = modbus::spec_data_type(modbus::function_of(rdata0[1]));
        let ghost num_g = crate::packet::u16_of(sdata[4], sdata[5]) as int;
        let ghost swrite = seq![sdata[4], sdata[5]];
        let ghost rd = received_modbus.data@;
        proof {
            assert(rd =~= modbus::recv_parsed_data(rdata0));
        }
        let mut data_points: Vec<u16> = Vec::new();
        match sent_modbus.function {
            FunctionTypes::ReadCoilStatus
            | FunctionTypes::ReadHoldingRegisters
            | FunctionTypes::ReadInputRegisters
            | FunctionTypes::ReadInputStatus => {
                match received_modbus.data_type {
                    DataTypes::Coil | DataTypes::Input => {
                        let num = sent_modbus.num_data_points as usize;
                        if (num + 7) / 8 > received_modbus.data.len() {
                            return Err(DecodeError::InsufficientData);
                        }
                        let mut i: usize = 0;
                        while i < num
                            invariant
                                i <= num,
                                (num + 7) / 8 <= received_modbus.data@.len(),
                                received_modbus.data@ == rd,
                                data_points@.len() == i,
                                forall|k: int|
                                    0 <= k < i ==> data_points@[k] == bit_of(rd[k / 8], k % 8),
                            decreases num - i,
                        {
                            let byte = received_modbus.data[i / 8];
                            let sh = i % 8;
                            let pw: u8 = if sh == 0 {
                                1
                            } else if sh == 1 {
                                2
                            } else if sh == 2 {
                                4
                            } else if sh == 3 {
                                8
                            } else if sh == 4 {
                                16
                            } else if sh == 5 {
                                32
                            } else if sh == 6 {
                                64
                            } else {
                                128
                            };
                            let bit: u16 = ((byte / pw) % 2) as u16;
                            data_points.push(bit);
                            i = i + 1;
                        }
                        proof {
                            assert(data_points@ =~= spec_bridge_values(
                                sf,
                                rdt,
                                num_g,
                                swrite,
                                rd,
                            ));
                        }
                    },
                    DataTypes::Register => {
                        let num = sent_modbus.num_data_points as usize;
                        if 2 * num > received_modbus.data.len() {
                            return Err(DecodeError::InsufficientData);
                        }
                        data_points = read_be_words(&received_modbus.data, 0, num);
                        proof {
                            assert(data_points@ =~= spec_bridge_values(
                                sf,
                                rdt,
                                num_g,
                                swrite,
                                rd,
                            ));
                        }
                    },
                    DataTypes::Unknown => {
                        proof {
                            assert(data_points@ =~= spec_bridge_values(
                                sf,
                                rdt,
                                num_g,
                                swrite,
                                rd,
                            ));
                        }
                    },
                }
            },
            FunctionTypes::WriteSingleCoil | FunctionTypes::WriteSingleRegister => {
                match sent_modbus.data_type {
                    DataTypes::Coil | DataTypes::Input => {
                        if sent_modbus.data[0] == 0xFF {
                            data_points.push(1);
                        } else {
                            data_points.push(0);
                        }
                    },
                    DataTypes::Register => {
                        let w: u16 = (sent_modbus.data[0] as u16) * 256 + (sent_modbus.data[
                            1
                        ] as u16);
                        data_points.push(w);
                    },
                    DataTypes::Unknown => {},
                }
                proof {
                    assert(data_points@ =~= spec_bridge_values(sf, rdt, num_g, swrite, rd));
                }
            },
            _ => {
                proof {
                    assert(data_points@ =~= spec_bridge_values(sf, rdt, num_g, swrite, rd));
                }
            },
        }
        Ok(
            BridgeSample {
                timestamp: now_millis(),
                hardware_id: hw,
                start_address: sent_modbus.start_address,
                function: sent_modbus.function,
                values: data_points,
                device_address: sent_modbus.address,
            },
        )
    }

    /// Persisted form of this sample and its content-hash lookup key.
    pub fn to_ivec(&self) -> (r: (Vec<u8>, Vec<u8>))
        ensures
            r.0@ == spec_bridge_ivec(*self),
            r.1@ == crate::task::le8(hash_of(spec_bridge_ivec(*self))),
    {
        let mut vec: Vec<u8> = Vec::new();
        push_le16(&mut vec, self.timestamp);
        push_bytes(&mut vec, self.hardware_id.as_slice());
        vec.push(self.device_address);
        vec.push((self.start_address / 256) as u8);
        vec.push((self.start_address % 256) as u8);
        vec.push(self.function.function_byte());
        push_be_words(&mut vec, &self.values);
        proof {
            assert(vec@ =~= spec_bridge_ivec(*self));
        }
        let h = calculate_hash(&vec);
        let mut key: Vec<u8> = Vec::new();
        crate::task::push_le8(&mut key, h);
        proof {
            assert(key@ =~= crate::task::le8(h));
        }
        (vec, key)
    }

    /// A bridge sample read back from its persisted form; the trailing
    /// value bytes, a whole number of big-endian pairs, are consumed to
    /// the end of the record.
    pub fn from_ivec(ivec: Vec<u8>) -> (r: Self)
        requires
            ivec@.len() >= 28,
            (ivec@.len() - 28) % 2 == 0,
        ensures
            r.timestamp == le128(ivec@.subrange(0, 16)),
            r.hardware_id@ == ivec@.subrange(16, 24),
            r.device_address == ivec@[24],
            r.start_address == crate::packet::u16_of(ivec@[25], ivec@[26]),
            r.function == modbus::function_of(ivec@[27]),
            r.values@.len() == (ivec@.len() - 28) / 2,
            forall|i: int|
                0 <= i < r.values@.len() ==> r.values@[i] == crate::packet::u16_of(
                    ivec@[28 + 2 * i],
                    ivec@[29 + 2 * i],
                ),
    {
        let timestamp = read_le16(&ivec, 0);
        let hw = crate::packet::read_arr8(&ivec, 16);
        let device_address = ivec[24];
        let start_address: u16 = (ivec[25] as u16) * 256 + (ivec[26] as u16);
        let function = FunctionTypes::new_function_type(ivec[27]);
        let n: usize = (ivec.len() - 28) / 2;
        let values = read_be_words(&ivec, 28, n);
        BridgeSample {
            timestamp,
            hardware_id: hw,
            device_address,
            start_address,
            function,
            values,
        }
    }
}


/// Copies a vector of 16-bit values.
pub(crate) fn copy_words(v: &Vec<u16>) -> (r: Vec<u16>)
    ensures
        r@ == v@,
{
    let mut r: Vec<u16> = Vec::new();
    let mut i: usize = 0;
    while i < v.len()
        invariant
            i <= v@.len(),
            r@ == v@.take(i as int),
        decreases v@.len() - i,
    {
        r.push(v[i]);
        proof {
            assert(r@ =~= v@.take(i + 1));
        }
        i = i + 1;
    }
    proof {
        assert(r@ =~= v@);
    }
    r
}

/// Two meter samples carrying the same reading.
pub open spec fn meter_like(a: MeterSample, b: MeterSample) -> bool {
    &&& a.timestamp == b.timestamp
    &&& a.hardware_id@ == b.hardware_id@
    &&& a.data_type == b.data_type
    &&& a.values@ == b.values@
}

/// Two bridge samples carrying the same reading.
pub open spec fn bridge_like(a: BridgeSample, b: BridgeSample) -> bool {
    &&& a.timestamp == b.timestamp
    &&& a.hardware_id@ == b.hardware_id@
    &&& a.start_address == b.start_address
    &&& a.function == b.function
    &&& a.values@ == b.values@
    &&& a.device_address == b.device_address
}

/// Two samples of the same class carrying the same reading.
pub open spec fn sample_like(a: Sample, b: Sample) -> bool {
    match a {
        Sample::Meter(x) => match b {
            Sample::Meter(y) => meter_like(x, y),
            _ => false,
        },
        Sample::Bridge(x) => match b {
            Sample::Bridge(y) => bridge_like(x, y),
            _ => false,
        },
        Sample::Pulse(x) => match b {
            Sample::Pulse(y) => x == y,
            _ => false,
        },
        Sample::Unknown => match b {
            Sample::Unknown => true,
            _ => false,
        },
    }
}

impl Clone for MeterSample {
    /// A copy carrying the same reading.
    fn clone(&self) -> (res: Self)
        ensures
            meter_like(*self, res),
    {
        MeterSample {
            timestamp: self.timestamp,
            hardware_id: self.hardware_id,
            data_type: self.data_type,
            values: copy_words(&self.values),
        }
    }
}

impl Clone for BridgeSample {
    /// A copy carrying the same reading.
    fn clone(&self) -> (res: Self)
        ensures
            bridge_like(*self, res),
    {
        BridgeSample {
            timestamp: self.timestamp,
            hardware_id: self.hardware_id,
            start_address: self.start_address,
            function: self.function,
            values: copy_words(&self.values),
            device_address: self.device_address,
        }
    }
}

impl Clone for Sample {
    /// A copy of the same class carrying the same reading.
    fn clone(&self) -> (res: Self)
        ensures
            sample_like(*self, res),
    {
        match self {
            Sample::Meter(x) => Sample::Meter(x.clone()),
            Sample::Bridge(x) => Sample::Bridge(x.clone()),
            Sample::Pulse(x) => Sample::Pulse(*x),
            Sample::Unknown => Sample::Unknown,
        }
    }
}

} // verus!
