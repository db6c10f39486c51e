//! Task model: a unit of scheduled work, the frame it transmits, its
//! schedule, and its flat byte form for persistence or transport. Two tasks
//! are the same task exactly when their frame payloads and destination
//! addresses match.

use vstd::prelude::*;

use crate::device::{device_type_of, spec_device_type_byte, DeviceTypes};
use crate::errors::DecodeError;
use crate::packet::{
    bytes8_eq, lemma_decode_encode, push_bytes, read_vec, spec_decode, spec_encode, vec_u8_eq,
    wf_outbound, Packet, PacketV,
};

verus! {

/// The kinds of scheduled work a task can describe.
#[derive(Clone, Copy, Debug, PartialEq, Eq, Structural)]
pub enum TaskTypes {
    Periodic,
    Single,
    RemovePeriodic,
    PausePeriodic,
    GetPeriodic,
    GetDevices,
    AddDevice,
    Discover,
    Unknown,
}

/// A unit of scheduled work: what frame to send, how often, and to which
/// device class.
#[derive(Debug)]
pub struct Task {
    pub task_type: TaskTypes,
    pub packet: Packet,
    pub min: usize,
    pub sec: usize,
    pub device_type: DeviceTypes,
}

/// Task kind denoted by a persisted tag byte; only the four schedule kinds
/// survive a byte round trip, every other byte maps to `Unknown`.
pub open spec fn task_type_of(val: u8) -> TaskTypes {
    if val == 0 {
        TaskTypes::Periodic
    } else if val == 1 {
        TaskTypes::Single
    } else if val == 2 {
        TaskTypes::RemovePeriodic
    } else if val == 3 {
        TaskTypes::PausePeriodic
    } else {
        TaskTypes::Unknown
    }
}

/// Persisted tag byte of each task kind.
pub open spec fn spec_task_type_byte(t: TaskTypes) -> u8 {
    match t {
        TaskTypes::Periodic => 0,
        TaskTypes::Single => 1,
        TaskTypes::RemovePeriodic => 2,
        TaskTypes::PausePeriodic => 3,
        TaskTypes::GetPeriodic => 4,
        TaskTypes::GetDevices => 5,
        TaskTypes::AddDevice => 6,
        TaskTypes::Discover => 7,
        TaskTypes::Unknown => 8,
    }
}

/// Task identity: two tasks are the same exactly when their frame payloads
/// and destination addresses match; schedule and kind are not identity.
pub open spec fn task_eq(a: Task, b: Task) -> bool {
    a.packet.data@ == b.packet.data@ && a.packet.address@ == b.packet.address@
}

/// A 64-bit value as eight little-endian bytes.
pub open spec fn le8(n: u64) -> Seq<u8> {
    seq![
        (n % 256) as u8,
        ((n / 0x100) % 256) as u8,
        ((n / 0x10000) % 256) as u8,
        ((n / 0x1000000) % 256) as u8,
        ((n / 0x100000000) % 256) as u8,
        ((n / 0x10000000000) % 256) as u8,
        ((n / 0x1000000000000) % 256) as u8,
        ((n / 0x100000000000000) % 256) as u8,
    ]
}

/// The 64-bit value eight little-endian bytes denote.
pub open spec fn le64(s: Seq<u8>) -> u64
    recommends
        s.len() == 8,
{
    (s[0] + s[1] * 0x100 + s[2] * 0x10000 + s[3] * 0x1000000 + s[4] * 0x100000000 + s[5]
        * 0x10000000000 + s[6] * 0x1000000000000 + s[7] * 0x100000000000000) as u64
}

/// Flat byte form of a task: tag byte, minute and second as eight
/// little-endian bytes each, device-type byte, then the frame's wire form.
pub open spec fn spec_task_bytes(t: Task) -> Seq<u8> {
    seq![spec_task_type_byte(t.task_type)] + le8(t.min as u64) + le8(t.sec as u64)
        + seq![spec_device_type_byte(t.device_type)] + spec_encode(t.packet@)
}

/// Appends a 64-bit value as eight little-endian bytes.
pub(crate) fn push_le8(v: &mut Vec<u8>, n: u64)
    ensures
        final(v)@ == old(v)@ + le8(n),
{
    v.push((n % 256) as u8);
    v.push(((n / 0x100) % 256) as u8);
    v.push(((n / 0x10000) % 256) as u8);
    v.push(((n / 0x1000000) % 256) as u8);
    v.push(((n / 0x100000000) % 256) as u8);
    v.push(((n / 0x10000000000) % 256) as u8);
    v.push(((n / 0x1000000000000) % 256) as u8);
    v.push(((n / 0x100000000000000) % 256) as u8);
    proof {
        assert(v@ =~= old(v)@ + le8(n));
    }
}

impl TaskTypes {
    /// Task kind denoted by a persisted tag byte.
    pub fn new_task_type(val: u8) -> (t: Self)
        ensures
            t == task_type_of(val),
    {
        if val == 0 {
            TaskTypes::Periodic
        } else if val == 1 {
            TaskTypes::Single
        } else if val == 2 {
            TaskTypes::RemovePeriodic
        } else if val == 3 {
            TaskTypes::PausePeriodic
        } else {
            TaskTypes::Unknown
        }
    }

    /// Persisted tag byte of the task kind.
    pub fn type_byte(self) -> (b: u8)
        ensures
            b == spec_task_type_byte(self),
    {
        match self {
            TaskTypes::Periodic => 0,
            TaskTypes::Single => 1,
            TaskTypes::RemovePeriodic => 2,
            TaskTypes::PausePeriodic => 3,
            TaskTypes::GetPeriodic => 4,
            TaskTypes::GetDevices => 5,
            TaskTypes::AddDevice => 6,
            TaskTypes::Discover => 7,
            TaskTypes::Unknown => 8,
        }
    }
}

impl Clone for Task {
    /// A copy with an identical frame and schedule.
    fn clone(&self) -> (res: Self)
        ensures
            res.task_type == self.task_type,
            res.packet@ == self.packet@,
            res.min == self.min,
            res.sec == self.sec,
            res.device_type == self.device_type,
    {
        Task {
            task_type: self.task_type,
            packet: self.packet.clone(),
            min: self.min,
            sec: self.sec,
            device_type: self.device_type,
        }
    }
}

impl PartialEq for Task {
    /// Task identity: frame payload and destination address only.
    fn eq(&self, other: &Self) -> (r: bool) {
        vec_u8_eq(&self.packet.data, &other.packet.data) && bytes8_eq(
            &self.packet.address,
            &other.packet.address,
        )
    }
}

impl vstd::std_specs::cmp::PartialEqSpecImpl for Task {
    open spec fn obeys_eq_spec() -> bool {
        true
    }

    open spec fn eq_spec(&self, other: &Task) -> bool {
        task_eq(*self, *other)
    }
}

impl Eq for Task {

}

impl Task {
    /// A task from its parts.
    pub fn new(packet: Packet, task_type: TaskTypes, min: usize, sec: usize, device: DeviceTypes)
        -> (r: Self)
        ensures
            r.task_type == task_type,
            r.packet@ == packet@,
            r.min == min,
            r.sec == sec,
            r.device_type == device,
    {
        Task { task_type, packet, min, sec, device_type: device }
    }

    /// Flat byte form of the task.
    pub fn to_vec(&self) -> (r: Vec<u8>)
        ensures
            r@ == spec_task_bytes(*self),
    {
        let mut vec: Vec<u8> = Vec::new();
        vec.push(self.task_type.type_byte());
        push_le8(&mut vec, self.min as u64);
        push_le8(&mut vec, self.sec as u64);
        vec.push(self.device_type.type_byte());
        let frame = self.packet.as_bytes();
        push_bytes(&mut vec, frame.as_slice());
        proof {
            assert(vec@ =~= spec_task_bytes(*self));
        }
        vec
    }

    /// Parses a task from its flat byte form, decoding the embedded frame
    /// and validating its checksum.
    pub fn from_vec(data: Vec<u8>) -> (r: Result<Self, DecodeError>)
        ensures
            r is Ok <==> data@.len() >= 18 && spec_decode(data@.skip(18)) is Ok,
            r matches Ok(t) ==> {
                &&& t.task_type == task_type_of(data@[0])
                &&& t.min == le64(data@.subrange(1, 9)) as usize
                &&& t.sec == le64(data@.subrange(9, 17)) as usize
                &&& t.device_type == device_type_of(data@[17])
                &&& Ok::<PacketV, DecodeError>(t.packet@) == spec_decode(data@.skip(18))
            },
            r matches Err(e) ==> if data@.len() < 18 {
                e == DecodeError::InsufficientData
            } else {
                Err::<PacketV, DecodeError>(e) == spec_decode(data@.skip(18))
            },
    {
        let n = data.len();
        if n < 18 {
            return Err(DecodeError::InsufficientData);
        }
        let t_type = TaskTypes::new_task_type(data[0]);
        let min_v: u64 = (data[1] as u64) + (data[2] as u64) * 0x100 + (data[3] as u64) * 0x10000
            + (data[4] as u64) * 0x1000000 + (data[5] as u64) * 0x100000000 + (data[6] as u64)
            * 0x10000000000 + (data[7] as u64) * 0x1000000000000 + (data[8] as u64)
            * 0x100000000000000;
        let sec_v: u64 = (data[9] as u64) + (data[10] as u64) * 0x100 + (data[11] as u64) * 0x10000
            + (data[12] as u64) * 0x1000000 + (data[13] as u64) * 0x100000000 + (data[14] as u64)
            * 0x10000000000 + (data[15] as u64) * 0x1000000000000 + (data[16] as u64)
            * 0x100000000000000;
        let dev = crate::device::DeviceTypes::new(data[17]);
        let mut rest = read_vec(&data, 18, n - 18);
        proof {
            assert(rest@ =~= data@.skip(18));
            assert(min_v == le64(data@.subrange(1, 9)));
            assert(sec_v == le64(data@.subrange(9, 17)));
        }
        match Packet::from_data(&mut rest) {
            Ok(pack) => Ok(
                Task {
                    task_type: t_type,
                    packet: pack,
                    min: min_v as usize,
                    sec: sec_v as usize,
                    device_type: dev,
                },
            ),
            Err(e) => Err(e),
        }
    }
}

/// Law: a task survives the byte round trip. The flat form's frame section
/// decodes back to the task's own frame, and since task identity is frame
/// payload plus destination address alone, the parsed task equals the
/// original.
pub proof fn lemma_task_round_trip(t: Task)
    requires
        wf_outbound(t.packet@),
    ensures
        spec_task_bytes(t).len() >= 18,
        spec_task_bytes(t).skip(18) == spec_encode(t.packet@),
        spec_decode(spec_task_bytes(t).skip(18)) == Ok::<PacketV, DecodeError>(t.packet@),
{
    assert(spec_task_bytes(t).skip(18) =~= spec_encode(t.packet@));
    lemma_decode_encode(t.packet@);
}

} // verus!
