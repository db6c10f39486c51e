//! Device registry: the known mesh nodes, their outstanding sent messages,
//! correlation of inbound frames to the requests they answer, and the
//! persisted device table.

use vstd::prelude::*;

use crate::packet::{bytes8_eq, covered, push_bytes, spec_checksum, FrameTypes, Packet, PacketV};
use crate::task::{task_eq, Task};

verus! {

/// The device classes the registry distinguishes.
#[derive(Clone, Copy, Debug, PartialEq, Eq, Structural)]
pub enum DeviceTypes {
    Unknown,
    PowerMeter,
    Bridge,
}

/// Device class denoted by a discovery or persistence tag byte.
pub open spec fn device_type_of(val: u8) -> DeviceTypes {
    if val == 1 {
        DeviceTypes::PowerMeter
    } else if val == 2 {
        DeviceTypes::Bridge
    } else {
        DeviceTypes::Unknown
    }
}

/// Persistence tag byte of each device class.
pub open spec fn spec_device_type_byte(t: DeviceTypes) -> u8 {
    match t {
        DeviceTypes::Unknown => 0,
        DeviceTypes::PowerMeter => 1,
        DeviceTypes::Bridge => 2,
    }
}

impl DeviceTypes {
    /// Device class denoted by a tag byte.
    pub fn new(val: u8) -> (t: Self)
        ensures
            t == device_type_of(val),
    {
        if val == 1 {
            DeviceTypes::PowerMeter
        } else if val == 2 {
            DeviceTypes::Bridge
        } else {
            DeviceTypes::Unknown
        }
    }

    /// Persistence tag byte of this device class.
    pub fn type_byte(self) -> (b: u8)
        ensures
            b == spec_device_type_byte(self),
    {
        match self {
            DeviceTypes::Unknown => 0,
            DeviceTypes::PowerMeter => 1,
            DeviceTypes::Bridge => 2,
        }
    }
}

/// An outstanding correlation record: one message sent and not yet answered.
#[derive(Debug)]
pub struct SentMessage {
    pub timestamp: u128,
    pub address: [u8; 8],
    pub task: Task,
    pub id: u8,
    pub resent: bool,
}

/// Equality of correlation records: every field, with the task compared by
/// its identity (frame payload and destination address).
pub open spec fn sm_eq(a: SentMessage, b: SentMessage) -> bool {
    &&& a.timestamp == b.timestamp
    &&& a.address@ == b.address@
    &&& task_eq(a.task, b.task)
    &&& a.id == b.id
    &&& a.resent == b.resent
}

/// Two records carrying the same correlation data: every field equal, the
/// tasks equal in frame, schedule, kind and target class.
pub open spec fn sm_like(a: SentMessage, b: SentMessage) -> bool {
    &&& a.timestamp == b.timestamp
    &&& a.address@ == b.address@
    &&& a.task.task_type == b.task.task_type
    &&& a.task.packet@ == b.task.packet@
    &&& a.task.min == b.task.min
    &&& a.task.sec == b.task.sec
    &&& a.task.device_type == b.task.device_type
    &&& a.id == b.id
    &&& a.resent == b.resent
}

impl Clone for SentMessage {
    /// A copy equal to the original record.
    fn clone(&self) -> (res: Self)
        ensures
            res.timestamp == self.timestamp,
            res.address@ == self.address@,
            res.task.packet@ == self.task.packet@,
            res.task.task_type == self.task.task_type,
            res.task.min == self.task.min,
            res.task.sec == self.task.sec,
            res.task.device_type == self.task.device_type,
            res.id == self.id,
            res.resent == self.resent,
            sm_eq(*self, res),
    {
        SentMessage {
            timestamp: self.timestamp,
            address: self.address,
            task: self.task.clone(),
            id: self.id,
            resent: self.resent,
        }
    }
}

impl PartialEq for SentMessage {
    /// Record equality: every field, tasks by their identity.
    fn eq(&self, other: &Self) -> (r: bool) {
        self.timestamp == other.timestamp && bytes8_eq(&self.address, &other.address) && self.task
            == other.task && self.id == other.id && self.resent == other.resent
    }
}

impl vstd::std_specs::cmp::PartialEqSpecImpl for SentMessage {
    open spec fn obeys_eq_spec() -> bool {
        true
    }

    open spec fn eq_spec(&self, other: &SentMessage) -> bool {
        sm_eq(*self, *other)
    }
}

impl Eq for SentMessage {

}

/// A known mesh node: its class, addresses, outstanding sent messages, and
/// when it was last heard from (milliseconds since the Unix epoch).
#[derive(Debug)]
pub struct Device {
    pub device_type: DeviceTypes,
    pub address: [u8; 8],
    pub network_address: [u8; 2],
    pub messages_sent: Vec<SentMessage>,
    pub last_heard_from: u128,
}

/// A device as reported to callers outside the registry.
#[derive(Clone, Copy, Debug)]
pub struct DeviceSummary {
    pub device_type: DeviceTypes,
    pub address: [u8; 8],
    pub network_address: [u8; 2],
    pub secs_since_heard_from: u64,
}

/// Persisted record of a device: tag byte, eight address bytes, two
/// network-address bytes.
pub open spec fn spec_device_record(d: Device) -> Seq<u8> {
    seq![spec_device_type_byte(d.device_type)] + d.address@ + d.network_address@
}

impl PartialEq for Device {
    /// Device identity is solely the hardware address.
    fn eq(&self, other: &Self) -> (r: bool) {
        bytes8_eq(&self.address, &other.address)
    }
}

impl vstd::std_specs::cmp::PartialEqSpecImpl for Device {
    open spec fn obeys_eq_spec() -> bool {
        true
    }

    open spec fn eq_spec(&self, other: &Device) -> bool {
        self.address@ == other.address@
    }
}

impl Eq for Device {

}

impl Device {
    /// Strips the correlation identifier from the front of a frame's
    /// payload, dropping the declared length and recomputing the checksum;
    /// the placement is uniform across device classes.
    pub fn remove_identifier(received_packet: &mut Packet, device_type: DeviceTypes)
        requires
            old(received_packet).data@.len() >= 1,
        ensures
            final(received_packet)@ == crate::packet::strip_front(old(received_packet)@),
    {
        match device_type {
            _ => {
                received_packet.remove_packet_identifier(0);
                proof {
                    let base = PacketV {
                        data: old(received_packet)@.data.remove(0),
                        length: crate::packet::dec_len(old(received_packet)@.length),
                        ..old(received_packet)@
                    };
                    assert(covered(final(received_packet)@) =~= covered(base));
                    assert(final(received_packet)@ =~= crate::packet::strip_front(
                        old(received_packet)@,
                    ));
                }
            },
        }
    }

    /// Attaches a correlation identifier to an outbound frame: as its frame
    /// id and embedded at the front of the payload; the placement is
    /// uniform across device classes.
    pub fn add_identifier(packet: &mut Packet, device_type: DeviceTypes, id: u8)
        requires
            old(packet).length < 65535,
        ensures
            final(packet)@ == (PacketV {
                frame_id: id,
                data: old(packet)@.data.insert(0, id),
                length: (old(packet)@.length + 1) as u16,
                checksum: final(packet)@.checksum,
                ..old(packet)@
            }),
            final(packet).checksum == spec_checksum(final(packet)@),
    {
        match device_type {
            _ => {
                packet.set_frame_id(id);
                packet.insert_packet_identifer(id);
                proof {
                    assert(final(packet)@ =~= (PacketV {
                        frame_id: id,
                        data: old(packet)@.data.insert(0, id),
                        length: (old(packet)@.length + 1) as u16,
                        checksum: final(packet)@.checksum,
                        ..old(packet)@
                    }));
                }
            },
        }
    }

    /// A newly discovered device with no outstanding messages, last heard
    /// from now.
    pub fn new(d_type: DeviceTypes, address: [u8; 8], network: [u8; 2]) -> (r: Self)
        ensures
            r.device_type == d_type,
            r.address@ == address@,
            r.network_address@ == network@,
            r.messages_sent@.len() == 0,
    {
        Device {
            device_type: d_type,
            address,
            network_address: network,
            messages_sent: Vec::new(),
            last_heard_from: crate::samples::now_millis(),
        }
    }

    /// Persisted record of this device: tag byte, address, network address.
    pub fn to_ivec(&self) -> (r: Vec<u8>)
        ensures
            r@ == spec_device_record(*self),
    {
        let mut vec: Vec<u8> = Vec::new();
        vec.push(self.device_type.type_byte());
        push_bytes(&mut vec, self.address.as_slice());
        push_bytes(&mut vec, self.network_address.as_slice());
        proof {
            assert(vec@ =~= spec_device_record(*self));
        }
        vec
    }

    /// A device read back from its persisted record, with no outstanding
    /// messages, last heard from now.
    pub fn from_ivec(data: &[u8]) -> (r: Self)
        requires
            data@.len() >= 11,
        ensures
            r.device_type == device_type_of(data@[0]),
            r.address@ == data@.subrange(1, 9),
            r.network_address@ == data@.subrange(9, 11),
            r.messages_sent@.len() == 0,
    {
        let address: [u8; 8] = [
            data[1],
            data[2],
            data[3],
            data[4],
            data[5],
            data[6],
            data[7],
            data[8],
        ];
        let network: [u8; 2] = [data[9], data[10]];
        proof {
            assert(address@ =~= data@.subrange(1, 9));
            assert(network@ =~= data@.subrange(9, 11));
        }
        Device {
            device_type: DeviceTypes::new(data[0]),
            address,
            network_address: network,
            messages_sent: Vec::new(),
            last_heard_from: crate::samples::now_millis(),
        }
    }
}


#[verifier::external_type_specification]
#[verifier::external_body]
pub struct ExDb(sled::Db);

#[verifier::external_type_specification]
#[verifier::external_body]
pub struct ExSledError(sled::Error);

/// Relies on sled::open: opens (creating if absent) the on-disk tree at the
/// fixed device-table path.
#[verifier::external_body]
fn open_device_store() -> Result<sled::Db, sled::Error> {
    sled::open("devices")
}

/// Relies on sled::Config::open with the `temporary` option: a store at a
/// fresh path that is deleted again when the handle drops.
#[verifier::external_body]
fn open_temp_store() -> Result<sled::Db, sled::Error> {
    sled::Config::new().temporary(true).open()
}

/// Relies on sled::Tree::insert: associates the value bytes with the key
/// bytes in the store; reports whether the write was accepted.
#[verifier::external_body]
fn store_put(db: &sled::Db, key: &[u8; 8], value: &Vec<u8>) -> bool {
    db.insert(key.as_slice(), value.as_slice()).is_ok()
}

/// Relies on sled::Tree::remove: deletes the key from the store; reports
/// whether the delete was accepted.
#[verifier::external_body]
fn store_delete(db: &sled::Db, key: &[u8; 8]) -> bool {
    db.remove(key.as_slice()).is_ok()
}

/// Relies on sled::Tree::iter: every stored value, in key order.
#[verifier::external_body]
fn store_values(db: &sled::Db) -> Result<Vec<Vec<u8>>, sled::Error> {
    let mut out: Vec<Vec<u8>> = Vec::new();
    for item in db.iter() {
        match item {
            Ok((_k, v)) => out.push(v.as_ref().to_vec()),
            Err(e) => {
                return Err(e);
            },
        }
    }
    Ok(out)
}

/// Handle on the durable backing store.
pub struct Store {
    handle: sled::Db,
}

/// The device registry: the in-memory device table backed by a durable
/// byte-keyed store, keyed by hardware address.
pub struct DeviceDB {
    pub devices: Vec<Device>,
    pub db: Store,
}

/// Whether some device in the table carries this hardware address.
pub open spec fn has_addr(devs: Seq<Device>, addr: Seq<u8>) -> bool {
    exists|i: int| 0 <= i < devs.len() && devs[i].address@ == addr
}

/// The device table after an insert: unchanged when the address is already
/// present, extended by the device otherwise.
pub open spec fn spec_add_device(devs: Seq<Device>, d: Device) -> Seq<Device> {
    if has_addr(devs, d.address@) {
        devs
    } else {
        devs.push(d)
    }
}

/// The device table with every entry of this hardware address removed.
pub open spec fn remove_addr(devs: Seq<Device>, addr: Seq<u8>) -> Seq<Device>
    decreases devs.len(),
{
    if devs.len() == 0 {
        Seq::empty()
    } else if devs[0].address@ == addr {
        remove_addr(devs.skip(1), addr)
    } else {
        seq![devs[0]] + remove_addr(devs.skip(1), addr)
    }
}

/// Every outstanding sent message of every device, devices in table order.
pub open spec fn spec_undelivered(devs: Seq<Device>) -> Seq<SentMessage>
    decreases devs.len(),
{
    if devs.len() == 0 {
        Seq::empty()
    } else {
        devs[0].messages_sent@ + spec_undelivered(devs.skip(1))
    }
}

/// Law: inserting a device is idempotent. A second insert of a device whose
/// address the table already holds changes nothing, so repeating an
/// identical insert yields the table of the single insert.
pub proof fn lemma_add_device_idempotent(devs: Seq<Device>, d: Device)
    ensures
        spec_add_device(spec_add_device(devs, d), d) == spec_add_device(devs, d),
{
    if !has_addr(devs, d.address@) {
        let once = devs.push(d);
        assert(once[devs.len() as int].address@ == d.address@);
        assert(has_addr(once, d.address@));
    }
}

/// Whether a persisted record is long enough to decode: the fixed layout
/// is one tag byte, eight address bytes, two network-address bytes.
pub open spec fn wf_record(rec: Vec<u8>) -> bool {
    rec@.len() >= 11
}

/// The well-formed records of a store snapshot, in store order; records
/// shorter than the fixed record length are dropped.
pub open spec fn wf_device_records(records: Seq<Vec<u8>>) -> Seq<Vec<u8>>
    decreases records.len(),
{
    if records.len() == 0 {
        Seq::empty()
    } else if wf_record(records[0]) {
        seq![records[0]] + wf_device_records(records.skip(1))
    } else {
        wf_device_records(records.skip(1))
    }
}

/// A device as decoded from a persisted record: class from the tag byte,
/// the two addresses as stored, no outstanding messages.
pub open spec fn device_of_record(d: Device, rec: Vec<u8>) -> bool {
    &&& d.device_type == device_type_of(rec@[0])
    &&& d.address@ == rec@.subrange(1, 9)
    &&& d.network_address@ == rec@.subrange(9, 11)
    &&& d.messages_sent@.len() == 0
}

/// Extending a record-snapshot prefix by one record appends that record to
/// its well-formed view exactly when the record is well formed.
proof fn lemma_wf_records_snoc(records: Seq<Vec<u8>>, i: int)
    requires
        0 <= i < records.len(),
    ensures
        wf_device_records(records.take(i + 1)) == wf_device_records(records.take(i)) + (
        if wf_record(records[i]) {
            seq![records[i]]
        } else {
            Seq::<Vec<u8>>::empty()
        }),
    decreases i,
{
    if i == 0 {
        assert(records.take(0) =~= Seq::<Vec<u8>>::empty());
        assert(records.take(1).skip(1) =~= Seq::<Vec<u8>>::empty());
        if wf_record(records[0]) {
            assert(wf_device_records(records.take(1)) =~= wf_device_records(records.take(0))
                + seq![records[0]]);
        } else {
            assert(wf_device_records(records.take(1)) =~= wf_device_records(records.take(0))
                + Seq::<Vec<u8>>::empty());
        }
    } else {
        lemma_wf_records_snoc(records.skip(1), i - 1);
        assert(records.skip(1)[i - 1] == records[i]);
        assert(records.take(i + 1).skip(1) =~= records.skip(1).take(i));
        assert(records.take(i).skip(1) =~= records.skip(1).take(i - 1));
        assert(records.take(i + 1)[0] == records[0]);
        assert(records.take(i)[0] == records[0]);
        if wf_record(records[0]) {
            assert(wf_device_records(records.take(i + 1)) =~= wf_device_records(records.take(i)) + (
            if wf_record(records[i]) {
                seq![records[i]]
            } else {
                Seq::<Vec<u8>>::empty()
            }));
        } else {
            assert(wf_device_records(records.take(i + 1)) =~= wf_device_records(records.take(i)) + (
            if wf_record(records[i]) {
                seq![records[i]]
            } else {
                Seq::<Vec<u8>>::empty()
            }));
        }
    }
}

/// Decodes a store snapshot into devices: one device per well-formed
/// record, in store order, each carrying exactly what its record stores;
/// records shorter than the fixed record length are skipped.
pub fn devices_from_records(records: &Vec<Vec<u8>>) -> (r: Vec<Device>)
    ensures
        r@.len() == wf_device_records(records@).len(),
        forall|i: int|
            0 <= i < r@.len() ==> device_of_record(r@[i], wf_device_records(records@)[i]),
{
    let mut devices: Vec<Device> = Vec::new();
    let mut i: usize = 0;
    let ghost recs = records@;
    proof {
        assert(wf_device_records(recs.take(0)) =~= Seq::<Vec<u8>>::empty());
    }
    while i < records.len()
        invariant
            i <= recs.len(),
            records@ == recs,
            devices@.len() == wf_device_records(recs.take(i as int)).len(),
            forall|k: int|
                0 <= k < devices@.len() ==> device_of_record(
                    devices@[k],
                    wf_device_records(recs.take(i as int))[k],
                ),
        decreases recs.len() - i,
    {
        if records[i].len() >= 11 {
            devices.push(Device::from_ivec(records[i].as_slice()));
        }
        proof {
            lemma_wf_records_snoc(recs, i as int);
            assert forall|k: int| 0 <= k < devices@.len() implies device_of_record(
                devices@[k],
                wf_device_records(recs.take(i + 1))[k],
            ) by {
                if k < wf_device_records(recs.take(i as int)).len() {
                    assert(wf_device_records(recs.take(i + 1))[k] == wf_device_records(
                        recs.take(i as int),
                    )[k]);
                } else {
                    assert(wf_device_records(recs.take(i + 1))[k] == recs[i as int]);
                }
            }
        }
        i = i + 1;
    }
    proof {
        assert(recs.take(recs.len() as int) =~= recs);
    }
    devices
}

impl DeviceDB {
    /// Builds the registry over an open store: the device table is the
    /// decoding of the store's records, as `devices_from_records` states.
    fn load(db: sled::Db) -> (r: Result<Self, crate::errors::PersistenceError>)
        ensures
            r matches Ok(reg) ==> forall|i: int|
                0 <= i < reg.devices@.len() ==> reg.devices@[i].messages_sent@.len() == 0,
    {
        let records = match store_values(&db) {
            Ok(v) => v,
            Err(_) => {
                return Err(crate::errors::PersistenceError::LoadFailed);
            },
        };
        let devices = devices_from_records(&records);
        proof {
            assert forall|i: int| 0 <= i < devices@.len() implies devices@[
                i
            ].messages_sent@.len() == 0 by {
                assert(device_of_record(devices@[i], wf_device_records(records@)[i]));
            }
        }
        Ok(DeviceDB { devices, db: Store { handle: db } })
    }

    /// Opens the durable device table at its fixed path and loads it; an
    /// open failure is fatal to the registry.
    pub fn new() -> (r: Result<Self, crate::errors::PersistenceError>)
        ensures
            r matches Ok(reg) ==> forall|i: int|
                0 <= i < reg.devices@.len() ==> reg.devices@[i].messages_sent@.len() == 0,
    {
        match open_device_store() {
            Ok(db) => Self::load(db),
            Err(_) => Err(crate::errors::PersistenceError::OpenFailed),
        }
    }

    /// A registry over a fresh store that vanishes when the registry drops;
    /// for ephemeral use.
    pub fn new_temporary() -> (r: Result<Self, crate::errors::PersistenceError>)
        ensures
            r matches Ok(reg) ==> forall|i: int|
                0 <= i < reg.devices@.len() ==> reg.devices@[i].messages_sent@.len() == 0,
    {
        match open_temp_store() {
            Ok(db) => Self::load(db),
            Err(_) => Err(crate::errors::PersistenceError::OpenFailed),
        }
    }

    /// Inserts a device unless one with its hardware address is already
    /// known, and persists the new record; insertion is idempotent.
    pub fn add_device(&mut self, device: Device)
        ensures
            final(self).devices@ == spec_add_device(old(self).devices@, device),
    {
        let mut i: usize = 0;
        let n = self.devices.len();
        while i < n
            invariant
                n == self.devices@.len(),
                i <= n,
                *self == *old(self),
                forall|j: int| 0 <= j < i ==> self.devices@[j].address@ != device.address@,
            decreases n - i,
        {
            if self.devices[i] == device {
                proof {
                    assert(has_addr(self.devices@, device.address@));
                }
                return ;
            }
            i = i + 1;
        }
        let record = device.to_ivec();
        let key: [u8; 8] = device.address;
        self.devices.push(device);
        store_put(&self.db.handle, &key, &record);
    }

    /// Removes every device equal (by hardware address) to the given one
    /// from memory and from the store; reports whether anything was
    /// removed.
    pub fn remove_device(&mut self, device: Device) -> (r: bool)
        ensures
            final(self).devices@ == remove_addr(old(self).devices@, device.address@),
            r == has_addr(old(self).devices@, device.address@),
    {
        let ghost devs0 = self.devices@;
        let mut kept: Vec<Device> = Vec::new();
        let mut removed = false;
        let ghost mut k: int = 0;
        proof {
            assert(devs0.skip(0) =~= devs0);
        }
        while self.devices.len() > 0
            invariant
                0 <= k <= devs0.len(),
                self.devices@ == devs0.skip(k),
                remove_addr(devs0, device.address@) == kept@ + remove_addr(
                    self.devices@,
                    device.address@,
                ),
                removed ==> has_addr(devs0, device.address@),
                !removed ==> forall|j: int| 0 <= j < k ==> devs0[j].address@ != device.address@,
            decreases self.devices@.len(),
        {
            let d = self.devices.remove(0);
            proof {
                assert(devs0.skip(k)[0] == devs0[k]);
                assert(devs0.skip(k).skip(1) =~= devs0.skip(k + 1));
            }
            if d == device {
                let key: [u8; 8] = d.address;
                store_delete(&self.db.handle, &key);
                removed = true;
                proof {
                    assert(devs0[k].address@ == device.address@);
                    assert(has_addr(devs0, device.address@));
                }
            } else {
                kept.push(d);
                proof {
                    assert(kept@ + remove_addr(self.devices@, device.address@) =~= kept@.drop_last()
                        + (seq![devs0[k]] + remove_addr(self.devices@, device.address@)));
                }
            }
            proof {
                k = k + 1;
            }
        }
        proof {
            assert(remove_addr(devs0, device.address@) =~= kept@);
            if !removed {
                assert forall|i: int| 0 <= i < devs0.len() implies devs0[i].address@
                    != device.address@ by {}
            }
        }
        self.devices = kept;
        removed
    }

    /// Every device's outstanding sent messages, flattened in table order;
    /// an external scheduler uses this to decide what to resend.
    pub fn get_undelivered_packets(&self) -> (r: Vec<SentMessage>)
        ensures
            r@.len() == spec_undelivered(self.devices@).len(),
            forall|i: int| 0 <= i < r@.len() ==> sm_like(r@[i], spec_undelivered(self.devices@)[i]),
    {
        let mut undelivered: Vec<SentMessage> = Vec::new();
        let mut i: usize = 0;
        let ghost devs = self.devices@;
        proof {
            assert(spec_undelivered(devs.take(0)) =~= Seq::<SentMessage>::empty());
        }
        while i < self.devices.len()
            invariant
                i <= devs.len(),
                self.devices@ == devs,
                undelivered@.len() == spec_undelivered(devs.take(i as int)).len(),
                forall|t: int|
                    0 <= t < undelivered@.len() ==> sm_like(
                        undelivered@[t],
                        spec_undelivered(devs.take(i as int))[t],
                    ),
            decreases devs.len() - i,
        {
            let ghost before = undelivered@;
            let mut j: usize = 0;
            while j < self.devices[i].messages_sent.len()
                invariant
                    i < devs.len(),
                    j <= devs[i as int].messages_sent@.len(),
                    self.devices@ == devs,
                    undelivered@.len() == before.len() + j,
                    forall|t: int| 0 <= t < before.len() ==> undelivered@[t] == before[t],
                    forall|t: int|
                        0 <= t < j ==> sm_like(
                            undelivered@[before.len() + t],
                            devs[i as int].messages_sent@[t],
                        ),
                decreases devs[i as int].messages_sent@.len() - j,
            {
                let m = self.devices[i].messages_sent[j].clone();
                undelivered.push(m);
                j = j + 1;
            }
            proof {
                lemma_undelivered_snoc(devs, i as int);
                assert forall|t: int| 0 <= t < undelivered@.len() implies sm_like(
                    undelivered@[t],
                    spec_undelivered(devs.take(i + 1))[t],
                ) by {
                    if t < before.len() {
                        assert(undelivered@[t] == before[t]);
                        assert(sm_like(before[t], spec_undelivered(devs.take(i as int))[t]));
                        assert(spec_undelivered(devs.take(i + 1))[t] == spec_undelivered(
                            devs.take(i as int),
                        )[t]);
                    } else {
                        let t2 = t - before.len();
                        assert(sm_like(
                            undelivered@[before.len() + t2],
                            devs[i as int].messages_sent@[t2],
                        ));
                        assert(spec_undelivered(devs.take(i + 1))[t] == devs[
                            i as int
                        ].messages_sent@[t2]);
                    }
                }
            }
            i = i + 1;
        }
        proof {
            assert(devs.take(devs.len() as int) =~= devs);
        }
        undelivered
    }
}

/// Extending a device-table prefix by one device appends that device's
/// messages to the flattened view of the prefix.
proof fn lemma_undelivered_snoc(devs: Seq<Device>, i: int)
    requires
        0 <= i < devs.len(),
    ensures
        spec_undelivered(devs.take(i + 1)) == spec_undelivered(devs.take(i)) + devs[
            i
        ].messages_sent@,
    decreases i,
{
    if i == 0 {
        assert(devs.take(0) =~= Seq::<Device>::empty());
        assert(devs.take(1).skip(1) =~= Seq::<Device>::empty());
        assert(spec_undelivered(devs.take(1)) == devs.take(1)[0].messages_sent@
            + spec_undelivered(devs.take(1).skip(1)));
        assert(spec_undelivered(devs.take(1)) =~= spec_undelivered(devs.take(0)) + devs[
            0
        ].messages_sent@);
    } else {
        lemma_undelivered_snoc(devs.skip(1), i - 1);
        assert(devs.skip(1)[i - 1] == devs[i]);
        assert(devs.take(i + 1).skip(1) =~= devs.skip(1).take(i));
        assert(devs.take(i).skip(1) =~= devs.skip(1).take(i - 1));
        assert(spec_undelivered(devs.take(i + 1)) == devs.take(i + 1)[0].messages_sent@
            + spec_undelivered(devs.skip(1).take(i)));
        assert(spec_undelivered(devs.take(i)) == devs.take(i)[0].messages_sent@
            + spec_undelivered(devs.skip(1).take(i - 1)));
        assert(spec_undelivered(devs.take(i + 1)) =~= spec_undelivered(devs.take(i)) + devs[
            i
        ].messages_sent@);
    }
}


/// Index of the first device carrying this hardware address, or -1.
pub open spec fn first_addr_idx(devs: Seq<Device>, addr: Seq<u8>) -> int
    decreases devs.len(),
{
    if devs.len() == 0 {
        -1
    } else if devs[0].address@ == addr {
        0
    } else {
        let r = first_addr_idx(devs.skip(1), addr);
        if r < 0 {
            -1
        } else {
            r + 1
        }
    }
}

/// Index of the first outstanding message recorded under this correlation
/// identifier, or -1.
pub open spec fn first_id_idx(msgs: Seq<SentMessage>, id: u8) -> int
    decreases msgs.len(),
{
    if msgs.len() == 0 {
        -1
    } else if msgs[0].id == id {
        0
    } else {
        let r = first_id_idx(msgs.skip(1), id);
        if r < 0 {
            -1
        } else {
            r + 1
        }
    }
}

/// Whether some outstanding message equals the given record.
pub open spec fn has_sm(msgs: Seq<SentMessage>, m: SentMessage) -> bool {
    exists|j: int| 0 <= j < msgs.len() && sm_eq(msgs[j], m)
}

/// Index of the first outstanding message equal to the given record, or -1.
pub open spec fn first_sm_idx(msgs: Seq<SentMessage>, m: SentMessage) -> int
    decreases msgs.len(),
{
    if msgs.len() == 0 {
        -1
    } else if sm_eq(msgs[0], m) {
        0
    } else {
        let r = first_sm_idx(msgs.skip(1), m);
        if r < 0 {
            -1
        } else {
            r + 1
        }
    }
}

/// Index of the first device holding a message equal to the record, or -1.
pub open spec fn first_sm_dev(devs: Seq<Device>, m: SentMessage) -> int
    decreases devs.len(),
{
    if devs.len() == 0 {
        -1
    } else if has_sm(devs[0].messages_sent@, m) {
        0
    } else {
        let r = first_sm_dev(devs.skip(1), m);
        if r < 0 {
            -1
        } else {
            r + 1
        }
    }
}

proof fn lemma_first_addr_idx(devs: Seq<Device>, addr: Seq<u8>, i: int)
    requires
        0 <= i < devs.len(),
        devs[i].address@ == addr,
        forall|j: int| 0 <= j < i ==> devs[j].address@ != addr,
    ensures
        first_addr_idx(devs, addr) == i,
    decreases i,
{
    if i > 0 {
        assert(devs.skip(1)[i - 1] == devs[i]);
        assert forall|j: int| 0 <= j < i - 1 implies devs.skip(1)[j].address@ != addr by {
            assert(devs.skip(1)[j] == devs[j + 1]);
        }
        lemma_first_addr_idx(devs.skip(1), addr, i - 1);
    }
}

proof fn lemma_no_addr_idx(devs: Seq<Device>, addr: Seq<u8>)
    requires
        forall|j: int| 0 <= j < devs.len() ==> devs[j].address@ != addr,
    ensures
        first_addr_idx(devs, addr) == -1,
    decreases devs.len(),
{
    if devs.len() > 0 {
        assert forall|j: int| 0 <= j < devs.skip(1).len() implies devs.skip(1)[j].address@
            != addr by {
            assert(devs.skip(1)[j] == devs[j + 1]);
        }
        lemma_no_addr_idx(devs.skip(1), addr);
    }
}

proof fn lemma_first_id_idx(msgs: Seq<SentMessage>, id: u8, i: int)
    requires
        0 <= i < msgs.len(),
        msgs[i].id == id,
        forall|j: int| 0 <= j < i ==> msgs[j].id != id,
    ensures
        first_id_idx(msgs, id) == i,
    decreases i,
{
    if i > 0 {
        assert(msgs.skip(1)[i - 1] == msgs[i]);
        assert forall|j: int| 0 <= j < i - 1 implies msgs.skip(1)[j].id != id by {
            assert(msgs.skip(1)[j] == msgs[j + 1]);
        }
        lemma_first_id_idx(msgs.skip(1), id, i - 1);
    }
}

proof fn lemma_no_id_idx(msgs: Seq<SentMessage>, id: u8)
    requires
        forall|j: int| 0 <= j < msgs.len() ==> msgs[j].id != id,
    ensures
        first_id_idx(msgs, id) == -1,
    decreases msgs.len(),
{
    if msgs.len() > 0 {
        assert forall|j: int| 0 <= j < msgs.skip(1).len() implies msgs.skip(1)[j].id != id by {
            assert(msgs.skip(1)[j] == msgs[j + 1]);
        }
        lemma_no_id_idx(msgs.skip(1), id);
    }
}

proof fn lemma_first_sm_idx(msgs: Seq<SentMessage>, m: SentMessage, i: int)
    requires
        0 <= i < msgs.len(),
        sm_eq(msgs[i], m),
        forall|j: int| 0 <= j < i ==> !sm_eq(msgs[j], m),
    ensures
        first_sm_idx(msgs, m) == i,
    decreases i,
{
    if i > 0 {
        assert(msgs.skip(1)[i - 1] == msgs[i]);
        assert forall|j: int| 0 <= j < i - 1 implies !sm_eq(msgs.skip(1)[j], m) by {
            assert(msgs.skip(1)[j] == msgs[j + 1]);
        }
        lemma_first_sm_idx(msgs.skip(1), m, i - 1);
    }
}

proof fn lemma_no_sm_idx(msgs: Seq<SentMessage>, m: SentMessage)
    requires
        forall|j: int| 0 <= j < msgs.len() ==> !sm_eq(msgs[j], m),
    ensures
        first_sm_idx(msgs, m) == -1,
    decreases msgs.len(),
{
    if msgs.len() > 0 {
        assert forall|j: int| 0 <= j < msgs.skip(1).len() implies !sm_eq(msgs.skip(1)[j], m) by {
            assert(msgs.skip(1)[j] == msgs[j + 1]);
        }
        lemma_no_sm_idx(msgs.skip(1), m);
    }
}

proof fn lemma_first_sm_dev(devs: Seq<Device>, m: SentMessage, i: int)
    requires
        0 <= i < devs.len(),
        has_sm(devs[i].messages_sent@, m),
        forall|j: int| 0 <= j < i ==> !has_sm(devs[j].messages_sent@, m),
    ensures
        first_sm_dev(devs, m) == i,
    decreases i,
{
    if i > 0 {
        assert(devs.skip(1)[i - 1] == devs[i]);
        assert forall|j: int| 0 <= j < i - 1 implies !has_sm(devs.skip(1)[j].messages_sent@, m) by {
            assert(devs.skip(1)[j] == devs[j + 1]);
        }
        lemma_first_sm_dev(devs.skip(1), m, i - 1);
    }
}

proof fn lemma_no_sm_dev(devs: Seq<Device>, m: SentMessage)
    requires
        forall|j: int| 0 <= j < devs.len() ==> !has_sm(devs[j].messages_sent@, m),
    ensures
        first_sm_dev(devs, m) == -1,
    decreases devs.len(),
{
    if devs.len() > 0 {
        assert forall|j: int| 0 <= j < devs.skip(1).len() implies !has_sm(
            devs.skip(1)[j].messages_sent@,
            m,
        ) by {
            assert(devs.skip(1)[j] == devs[j + 1]);
        }
        lemma_no_sm_dev(devs.skip(1), m);
    }
}


/// A task copy with the same frame, schedule, kind and target class.
pub open spec fn task_like(a: Task, b: Task) -> bool {
    &&& a.task_type == b.task_type
    &&& a.packet@ == b.packet@
    &&& a.min == b.min
    &&& a.sec == b.sec
    &&& a.device_type == b.device_type
}

/// The correlation record that `add_sent_message` files under a device.
pub open spec fn sm_built(m: SentMessage, task: Task, id: u8, resent: bool, addr: Seq<u8>) -> bool {
    &&& task_like(m.task, task)
    &&& m.id == id
    &&& m.resent == resent
    &&& m.address@ == addr
}

/// A device after one correlation record was filed under it: every field as
/// before, the record appended to its outstanding messages.
pub open spec fn dev_pushed(d0: Device, d1: Device, task: Task, id: u8, resent: bool) -> bool {
    &&& d1.device_type == d0.device_type
    &&& d1.address@ == d0.address@
    &&& d1.network_address@ == d0.network_address@
    &&& d1.last_heard_from == d0.last_heard_from
    &&& d1.messages_sent@.len() == d0.messages_sent@.len() + 1
    &&& forall|j: int|
        0 <= j < d0.messages_sent@.len() ==> d1.messages_sent@[j] == d0.messages_sent@[j]
    &&& sm_built(d1.messages_sent@.last(), task, id, resent, d0.address@)
}

/// A device after one outstanding message was removed: every other field as
/// before, the last-heard-from stamp free to move.
pub open spec fn dev_msg_removed(d0: Device, d1: Device, mi: int) -> bool {
    &&& d1.device_type == d0.device_type
    &&& d1.address@ == d0.address@
    &&& d1.network_address@ == d0.network_address@
    &&& d1.messages_sent@ == d0.messages_sent@.remove(mi)
}

impl DeviceDB {
    /// Records the task as outstanding: under every known device of the
    /// task's target class for a broadcast, under the single device the
    /// frame addresses for a unicast; silently records nothing when no
    /// device matches.
    pub fn add_sent_message(&mut self, task: Task, id: u8, resent: bool)
        ensures
            final(self).devices@.len() == old(self).devices@.len(),
            task.packet.is_broadcast ==> forall|i: int|
                0 <= i < old(self).devices@.len() ==> if old(self).devices@[i].device_type
                    == task.device_type {
                    dev_pushed(old(self).devices@[i], final(self).devices@[i], task, id, resent)
                } else {
                    final(self).devices@[i] == old(self).devices@[i]
                },
            !task.packet.is_broadcast ==> {
                let di = first_addr_idx(old(self).devices@, task.packet.address@);
                &&& forall|i: int|
                    0 <= i < old(self).devices@.len() && i != di ==> final(self).devices@[i] == old(
                        self,
                    ).devices@[i]
                &&& di >= 0 ==> dev_pushed(
                    old(self).devices@[di],
                    final(self).devices@[di],
                    task,
                    id,
                    resent,
                )
            },
    {
        let ts = crate::samples::now_millis();
        let ghost devs0 = self.devices@;
        let n = self.devices.len();
        if task.packet.is_broadcast {
            let mut i: usize = 0;
            while i < n
                invariant
                    i <= n,
                    n == self.devices@.len(),
                    n == devs0.len(),
                    devs0 == old(self).devices@,
                    forall|k: int|
                        0 <= k < i ==> if devs0[k].device_type == task.device_type {
                            dev_pushed(devs0[k], self.devices@[k], task, id, resent)
                        } else {
                            self.devices@[k] == devs0[k]
                        },
                    forall|k: int| i <= k < n ==> self.devices@[k] == devs0[k],
                decreases n - i,
            {
                if self.devices[i].device_type == task.device_type {
                    let ghost prev = self.devices@;
                    let mut dev = self.devices.remove(i);
                    let addr: [u8; 8] = dev.address;
                    dev.messages_sent.push(
                        SentMessage {
                            timestamp: ts,
                            task: task.clone(),
                            id,
                            resent,
                            address: addr,
                        },
                    );
                    self.devices.insert(i, dev);
                    proof {
                        assert(self.devices@ =~= prev.update(i as int, self.devices@[i as int]));
                        assert(prev[i as int] == devs0[i as int]);
                        assert(dev_pushed(
                            devs0[i as int],
                            self.devices@[i as int],
                            task,
                            id,
                            resent,
                        ));
                    }
                }
                i = i + 1;
            }
        } else {
            let mut i: usize = 0;
            while i < n
                invariant
                    i <= n,
                    n == self.devices@.len(),
                    self.devices@ == devs0,
                    devs0 == old(self).devices@,
                    !task.packet.is_broadcast,
                    forall|k: int| 0 <= k < i ==> devs0[k].address@ != task.packet.address@,
                decreases n - i,
            {
                if bytes8_eq(&self.devices[i].address, &task.packet.address) {
                    proof {
                        lemma_first_addr_idx(devs0, task.packet.address@, i as int);
                    }
                    let mut dev = self.devices.remove(i);
                    let addr: [u8; 8] = dev.address;
                    dev.messages_sent.push(
                        SentMessage {
                            timestamp: ts,
                            task: task.clone(),
                            id,
                            resent,
                            address: addr,
                        },
                    );
                    self.devices.insert(i, dev);
                    proof {
                        assert(self.devices@ =~= devs0.update(i as int, self.devices@[i as int]));
                        assert(dev_pushed(
                            devs0[i as int],
                            self.devices@[i as int],
                            task,
                            id,
                            resent,
                        ));
                        assert(self.devices@.len() == devs0.len());
                        assert(forall|k: int|
                            0 <= k < devs0.len() && k != i as int ==> self.devices@[k] == devs0[k]);
                        assert(first_addr_idx(devs0, task.packet.address@) == i as int);
                    }
                    return ;
                }
                i = i + 1;
            }
            proof {
                lemma_no_addr_idx(devs0, task.packet.address@);
            }
        }
    }

    /// Removes the first outstanding message, across all devices in table
    /// order, that equals the given record; at most one is removed even if
    /// duplicates exist.
    pub fn clear_resent_message(&mut self, sent_message: SentMessage)
        ensures
            final(self).devices@.len() == old(self).devices@.len(),
            ({
                let di = first_sm_dev(old(self).devices@, sent_message);
                &&& di < 0 ==> final(self).devices@ == old(self).devices@
                &&& di >= 0 ==> {
                    &&& forall|k: int|
                        0 <= k < old(self).devices@.len() && k != di ==> final(self).devices@[k]
                            == old(self).devices@[k]
                    &&& dev_msg_removed(
                        old(self).devices@[di],
                        final(self).devices@[di],
                        first_sm_idx(old(self).devices@[di].messages_sent@, sent_message),
                    )
                    &&& final(self).devices@[di].last_heard_from == old(
                        self,
                    ).devices@[di].last_heard_from
                }
            }),
    {
        let ghost devs0 = self.devices@;
        let n = self.devices.len();
        let mut i: usize = 0;
        while i < n
            invariant
                i <= n,
                n == self.devices@.len(),
                self.devices@ == devs0,
                devs0 == old(self).devices@,
                forall|k: int| 0 <= k < i ==> !has_sm(devs0[k].messages_sent@, sent_message),
            decreases n - i,
        {
            let m = self.devices[i].messages_sent.len();
            let mut j: usize = 0;
            while j < m
                invariant
                    i < n,
                    j <= m,
                    n == self.devices@.len(),
                    m == devs0[i as int].messages_sent@.len(),
                    self.devices@ == devs0,
                    devs0 == old(self).devices@,
                    forall|k: int| 0 <= k < i ==> !has_sm(devs0[k].messages_sent@, sent_message),
                    forall|l: int|
                        0 <= l < j ==> !sm_eq(devs0[i as int].messages_sent@[l], sent_message),
                decreases m - j,
            {
                if self.devices[i].messages_sent[j] == sent_message {
                    proof {
                        assert(has_sm(devs0[i as int].messages_sent@, sent_message));
                        lemma_first_sm_dev(devs0, sent_message, i as int);
                        lemma_first_sm_idx(devs0[i as int].messages_sent@, sent_message, j as int);
                    }
                    let mut dev = self.devices.remove(i);
                    dev.messages_sent.remove(j);
                    self.devices.insert(i, dev);
                    proof {
                        assert(self.devices@ =~= devs0.update(i as int, self.devices@[i as int]));
                        assert(self.devices@.len() == devs0.len());
                        assert(forall|k: int|
                            0 <= k < devs0.len() && k != i as int ==> self.devices@[k] == devs0[k]);
                        assert(dev_msg_removed(
                            devs0[i as int],
                            self.devices@[i as int],
                            j as int,
                        ));
                        assert(self.devices@[i as int].last_heard_from == devs0[
                            i as int
                        ].last_heard_from);
                    }
                    return ;
                }
                j = j + 1;
            }
            proof {
                lemma_no_sm_idx(devs0[i as int].messages_sent@, sent_message);
                assert(!has_sm(devs0[i as int].messages_sent@, sent_message));
            }
            i = i + 1;
        }
        proof {
            lemma_no_sm_dev(devs0, sent_message);
        }
    }
}


/// A sent frame as it is handed back to the caller: its leading payload
/// byte — the correlation identifier the registry embedded at send time —
/// stripped, with length and checksum adjusted, so that callers see
/// payloads with no protocol-internal framing byte; a frame with an empty
/// payload is handed back as it is.
pub open spec fn stripped_sent(p: Packet) -> PacketV {
    if p.data@.len() == 0 {
        p@
    } else {
        crate::packet::strip_front(p@)
    }
}

/// Full behavior of frame ingestion, relating the registry and frame before
/// (`devs0`, `p0`) and after (`devs1`, `p1`) to the returned pair.
///
/// A frame from a known device: a delivery or remote AT status leaves
/// everything unchanged and reports the device's class; a receive packet
/// correlates by its leading payload identifier, removes exactly the first
/// outstanding message recorded under that identifier, strips the
/// identifier byte from the received payload, and hands back the
/// originally sent frame with its own identifier byte stripped, or else
/// reports that nothing matched. A frame from an unknown address: a remote
/// AT response carrying the discovery command code registers a new device
/// whose class the last payload byte names; anything else changes nothing.
pub open spec fn spec_ingest(
    devs0: Seq<Device>,
    devs1: Seq<Device>,
    p0: PacketV,
    p1: PacketV,
    r: Result<(DeviceTypes, Packet), crate::errors::RegistryError>,
) -> bool {
    let di = first_addr_idx(devs0, p0.address);
    if di >= 0 {
        let d = devs0[di];
        if p0.frame_type == FrameTypes::TransmitStatus || p0.frame_type
            == FrameTypes::RemoteAtResponse {
            &&& devs1 == devs0
            &&& p1 == p0
            &&& match r {
                Ok(pair) => pair.0 == d.device_type && pair.1@ == crate::packet::empty_packet(),
                Err(_) => false,
            }
        } else if p0.frame_type == FrameTypes::ReceivePacket {
            if p0.data.len() == 0 {
                &&& devs1 == devs0
                &&& p1 == p0
                &&& r == Err::<(DeviceTypes, Packet), _>(
                    crate::errors::RegistryError::NoMatchingRequest,
                )
            } else {
                let ident = p0.data[0];
                let mi = first_id_idx(d.messages_sent@, ident);
                if mi < 0 {
                    &&& devs1 == devs0
                    &&& p1 == p0
                    &&& r == Err::<(DeviceTypes, Packet), _>(
                        crate::errors::RegistryError::NoMatchingRequest,
                    )
                } else {
                    &&& devs1.len() == devs0.len()
                    &&& forall|k: int| 0 <= k < devs0.len() && k != di ==> devs1[k] == devs0[k]
                    &&& dev_msg_removed(d, devs1[di], mi)
                    &&& p1 == crate::packet::strip_front(p0)
                    &&& match r {
                        Ok(pair) => pair.0 == d.device_type && pair.1@ == stripped_sent(
                            d.messages_sent@[mi].task.packet,
                        ),
                        Err(_) => false,
                    }
                }
            }
        } else {
            &&& devs1 == devs0
            &&& p1 == p0
            &&& match r {
                Ok(pair) => pair.0 == d.device_type && pair.1@ == crate::packet::empty_packet(),
                Err(_) => false,
            }
        }
    } else {
        if p0.frame_type == FrameTypes::RemoteAtResponse && p0.command == seq![0x44u8, 0x44u8]
            && p0.data.len() >= 1 {
            let dtype = device_type_of(p0.data.last());
            &&& devs1.len() == devs0.len() + 1
            &&& forall|k: int| 0 <= k < devs0.len() ==> devs1[k] == devs0[k]
            &&& devs1.last().device_type == dtype
            &&& devs1.last().address@ == p0.address
            &&& devs1.last().network_address@ == p0.network_address
            &&& devs1.last().messages_sent@.len() == 0
            &&& p1 == p0
            &&& match r {
                Ok(pair) => pair.0 == dtype && pair.1@ == crate::packet::empty_packet(),
                Err(_) => false,
            }
        } else {
            &&& devs1 == devs0
            &&& p1 == p0
            &&& match r {
                Ok(pair) => pair.0 == DeviceTypes::Unknown && pair.1@
                    == crate::packet::empty_packet(),
                Err(_) => false,
            }
        }
    }
}

impl DeviceDB {
    /// Ingests one inbound frame: correlates it with the outstanding sent
    /// message it answers, registers a newly discovered device, or reports
    /// a delivery status, as `spec_ingest` states case by case.
    #[verifier::loop_isolation(false)]
    pub fn clear_sent_message(&mut self, packet: &mut Packet) -> (r: Result<
        (DeviceTypes, Packet),
        crate::errors::RegistryError,
    >)
        ensures
            spec_ingest(
                old(self).devices@,
                final(self).devices@,
                old(packet)@,
                final(packet)@,
                r,
            ),
    {
        let ghost devs0 = self.devices@;
        let ghost p0 = old(packet)@;
        let n = self.devices.len();
        let mut found = false;
        let mut di: usize = 0;
        let mut i: usize = 0;
        while i < n
            invariant
                i <= n,
                found ==> di < n && devs0[di as int].address@ == p0.address && forall|k: int|
                    0 <= k < di ==> devs0[k].address@ != p0.address,
                !found ==> forall|k: int| 0 <= k < i ==> devs0[k].address@ != p0.address,
            decreases n - i,
        {
            if !found && bytes8_eq(&self.devices[i].address, &packet.address) {
                found = true;
                di = i;
            }
            i = i + 1;
        }
        proof {
            if found {
                lemma_first_addr_idx(devs0, p0.address, di as int);
            } else {
                lemma_no_addr_idx(devs0, p0.address);
            }
        }
        if found {
            match packet.frame_type {
                FrameTypes::TransmitStatus | FrameTypes::RemoteAtResponse => {
                    let dt = self.devices[di].device_type;
                    Ok((dt, Packet::new_empty()))
                },
                FrameTypes::ReceivePacket => {
                    if packet.data.len() == 0 {
                        return Err(crate::errors::RegistryError::NoMatchingRequest);
                    }
                    let ident = packet.get_packet_identifier();
                    let m = self.devices[di].messages_sent.len();
                    let mut mfound = false;
                    let mut mi: usize = 0;
                    let mut j: usize = 0;
                    while j < m
                        invariant
                            j <= m,
                            mfound ==> mi < m && devs0[di as int].messages_sent@[mi as int].id
                                == ident && forall|l: int|
                                0 <= l < mi ==> devs0[di as int].messages_sent@[l].id != ident,
                            !mfound ==> forall|l: int|
                                0 <= l < j ==> devs0[di as int].messages_sent@[l].id != ident,
                        decreases m - j,
                    {
                        if !mfound && self.devices[di].messages_sent[j].id == ident {
                            mfound = true;
                            mi = j;
                        }
                        j = j + 1;
                    }
                    proof {
                        if mfound {
                            lemma_first_id_idx(devs0[di as int].messages_sent@, ident, mi as int);
                        } else {
                            lemma_no_id_idx(devs0[di as int].messages_sent@, ident);
                        }
                    }
                    if !mfound {
                        return Err(crate::errors::RegistryError::NoMatchingRequest);
                    }
                    let mut dev = self.devices.remove(di);
                    let sm = dev.messages_sent.remove(mi);
                    dev.last_heard_from = crate::samples::now_millis();
                    let dt = dev.device_type;
                    self.devices.insert(di, dev);
                    proof {
                        assert(self.devices@ =~= devs0.update(di as int, self.devices@[di as int]));
                    }
                    let mut ret_packet = sm.task.packet;
                    if ret_packet.data.len() > 0 {
                        Device::remove_identifier(&mut ret_packet, dt);
                    }
                    Device::remove_identifier(packet, dt);
                    Ok((dt, ret_packet))
                },
                _ => {
                    let dt = self.devices[di].device_type;
                    Ok((dt, Packet::new_empty()))
                },
            }
        } else {
            match packet.frame_type {
                FrameTypes::RemoteAtResponse => {
                    if packet.command[0] == 0x44 && packet.command[1] == 0x44 {
                        proof {
                            assert(p0.command =~= seq![0x44u8, 0x44u8]);
                        }
                        if packet.data.len() >= 1 {
                            let lastb = packet.data[packet.data.len() - 1];
                            let dtype = DeviceTypes::new(lastb);
                            let dev = Device::new(dtype, packet.address, packet.network_address);
                            proof {
                                assert(!has_addr(devs0, dev.address@));
                            }
                            self.add_device(dev);
                            Ok((dtype, Packet::new_empty()))
                        } else {
                            Ok((DeviceTypes::Unknown, Packet::new_empty()))
                        }
                    } else {
                        proof {
                            assert(p0.command != seq![0x44u8, 0x44u8]);
                        }
                        Ok((DeviceTypes::Unknown, Packet::new_empty()))
                    }
                },
                _ => Ok((DeviceTypes::Unknown, Packet::new_empty())),
            }
        }
    }
}


/// Law: ingesting a receive packet whose leading payload byte correlates
/// with an outstanding record removes exactly that record — the first one
/// filed under the identifier — leaves every other device untouched,
/// returns the originally sent frame stripped of its own identifier byte,
/// and strips exactly the identifier byte from the received payload.
pub proof fn lemma_ingest_correlates(
    devs1: Seq<Device>,
    devs2: Seq<Device>,
    p0: PacketV,
    p1: PacketV,
    r: Result<(DeviceTypes, Packet), crate::errors::RegistryError>,
    mi: int,
)
    requires
        spec_ingest(devs1, devs2, p0, p1, r),
        p0.frame_type == FrameTypes::ReceivePacket,
        p0.data.len() >= 1,
        first_addr_idx(devs1, p0.address) >= 0,
        ({
            let di = first_addr_idx(devs1, p0.address);
            &&& 0 <= mi < devs1[di].messages_sent@.len()
            &&& devs1[di].messages_sent@[mi].id == p0.data[0]
            &&& forall|l: int| 0 <= l < mi ==> devs1[di].messages_sent@[l].id != p0.data[0]
        }),
    ensures
        ({
            let di = first_addr_idx(devs1, p0.address);
            &&& r is Ok
            &&& devs2[di].messages_sent@ == devs1[di].messages_sent@.remove(mi)
            &&& devs2[di].messages_sent@.len() + 1 == devs1[di].messages_sent@.len()
            &&& forall|k: int| 0 <= k < devs1.len() && k != di ==> devs2[k] == devs1[k]
            &&& p1.data == p0.data.remove(0)
            &&& match r {
                Ok(pair) => pair.1@ == stripped_sent(devs1[di].messages_sent@[mi].task.packet),
                Err(_) => false,
            }
        }),
{
    let di = first_addr_idx(devs1, p0.address);
    lemma_first_id_idx(devs1[di].messages_sent@, p0.data[0], mi);
}

} // verus!
