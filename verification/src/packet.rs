//! Radio-module API frame codec: wire format, checksum arithmetic, typed
//! builders, and identifier management for request/response correlation.

use vstd::prelude::*;

use crate::errors::DecodeError;

verus! {

/// The frame kinds of the radio-module API that this codec understands.
#[derive(Clone, Copy, Debug, PartialEq, Eq, Structural)]
pub enum FrameTypes {
    TransmitRequest,
    TransmitStatus,
    ReceivePacket,
    RemoteAtRequest,
    RemoteAtResponse,
    LocalAtCommand,
    LocalAtResponse,
    Unknown,
}

/// A single radio-module API frame.
///
/// The checksum invariant is `checksum == spec_checksum(self@)` for every
/// frame produced by a builder or by `from_data`; `is_valid` tests exactly
/// that equation.
#[derive(Debug, PartialEq, Eq)]
pub struct Packet {
    pub is_broadcast: bool,
    pub length: u16,
    pub frame_type: FrameTypes,
    pub frame_id: u8,
    pub address: [u8; 8],
    pub network_address: [u8; 2],
    pub options: u8,
    pub delivery_status: u8,
    pub data: Vec<u8>,
    pub checksum: u8,
    pub retry_count: u8,
    pub discovery_status: u8,
    pub broadcast_radius: u8,
    pub command: [u8; 2],
    pub command_status: u8,
}

/// Mathematical image of a `Packet`: every byte field as-is and every
/// byte-array field as a sequence.
#[verifier::ext_equal]
pub struct PacketV {
    pub is_broadcast: bool,
    pub length: u16,
    pub frame_type: FrameTypes,
    pub frame_id: u8,
    pub address: Seq<u8>,
    pub network_address: Seq<u8>,
    pub options: u8,
    pub delivery_status: u8,
    pub data: Seq<u8>,
    pub checksum: u8,
    pub retry_count: u8,
    pub discovery_status: u8,
    pub broadcast_radius: u8,
    pub command: Seq<u8>,
    pub command_status: u8,
}

impl View for Packet {
    type V = PacketV;

    open spec fn view(&self) -> PacketV {
        PacketV {
            is_broadcast: self.is_broadcast,
            length: self.length,
            frame_type: self.frame_type,
            frame_id: self.frame_id,
            address: self.address@,
            network_address: self.network_address@,
            options: self.options,
            delivery_status: self.delivery_status,
            data: self.data@,
            checksum: self.checksum,
            retry_count: self.retry_count,
            discovery_status: self.discovery_status,
            broadcast_radius: self.broadcast_radius,
            command: self.command@,
            command_status: self.command_status,
        }
    }
}

/// The reserved broadcast hardware address: six zero bytes then 0xFF 0xFF.
pub open spec fn bcast_address() -> Seq<u8> {
    seq![0u8, 0u8, 0u8, 0u8, 0u8, 0u8, 0xFFu8, 0xFFu8]
}

/// Wire discriminant of each frame type.
pub open spec fn spec_type_byte(t: FrameTypes) -> u8 {
    match t {
        FrameTypes::TransmitRequest => 0x10,
        FrameTypes::TransmitStatus => 0x8B,
        FrameTypes::ReceivePacket => 0x90,
        FrameTypes::RemoteAtRequest => 0x17,
        FrameTypes::RemoteAtResponse => 0x97,
        FrameTypes::LocalAtCommand => 0x08,
        FrameTypes::LocalAtResponse => 0x88,
        FrameTypes::Unknown => 0x00,
    }
}

/// Frame type denoted by a wire discriminant; unknown bytes map to `None`.
pub open spec fn frame_type_of(val: u8) -> FrameTypes {
    if val == 0x10 {
        FrameTypes::TransmitRequest
    } else if val == 0x8B {
        FrameTypes::TransmitStatus
    } else if val == 0x90 {
        FrameTypes::ReceivePacket
    } else if val == 0x17 {
        FrameTypes::RemoteAtRequest
    } else if val == 0x97 {
        FrameTypes::RemoteAtResponse
    } else if val == 0x08 {
        FrameTypes::LocalAtCommand
    } else if val == 0x88 {
        FrameTypes::LocalAtResponse
    } else {
        FrameTypes::Unknown
    }
}

/// Addition of two bytes with 8-bit wraparound.
pub open spec fn add8(a: u8, b: u8) -> u8 {
    ((a + b) % 256) as u8
}

/// Sum of a byte sequence with 8-bit wraparound.
pub open spec fn wsum(s: Seq<u8>) -> u8
    decreases s.len(),
{
    if s.len() == 0 {
        0u8
    } else {
        add8(wsum(s.drop_last()), s.last())
    }
}

/// The bytes covered by the checksum, in summing order, for each frame type.
pub open spec fn covered(p: PacketV) -> Seq<u8> {
    let tb = spec_type_byte(p.frame_type);
    match p.frame_type {
        FrameTypes::TransmitRequest => seq![tb, p.frame_id] + p.address + p.network_address
            + seq![p.options] + p.data,
        FrameTypes::RemoteAtRequest => seq![tb, p.frame_id] + p.address + p.network_address
            + seq![p.options] + p.data + p.command,
        FrameTypes::TransmitStatus => seq![tb, p.frame_id] + p.network_address
            + seq![p.retry_count, p.delivery_status, p.discovery_status],
        FrameTypes::ReceivePacket => seq![tb] + p.address + p.network_address + seq![p.options]
            + p.data,
        FrameTypes::RemoteAtResponse => seq![tb, p.frame_id] + p.address + p.network_address
            + p.data + seq![p.options] + p.command,
        FrameTypes::LocalAtCommand => seq![tb, p.frame_id] + p.data,
        FrameTypes::LocalAtResponse => seq![tb, p.frame_id] + p.data,
        FrameTypes::Unknown => Seq::empty(),
    }
}

/// Checksum equation of the wire format: 255 minus the wraparound sum of the
/// type-specific covered field bytes.
pub open spec fn spec_checksum(p: PacketV) -> u8 {
    (255 - wsum(covered(p))) as u8
}

/// A frame the codec will emit in full wire form, with every off-wire field
/// at its default and a checksum satisfying the checksum equation.
pub open spec fn wf_outbound(p: PacketV) -> bool {
    &&& p.address.len() == 8
    &&& p.network_address.len() == 2
    &&& p.command.len() == 2
    &&& p.checksum == spec_checksum(p)
    &&& p.is_broadcast == (p.address == bcast_address())
    &&& match p.frame_type {
        FrameTypes::TransmitRequest => {
            &&& p.length == 14 + p.data.len()
            &&& p.command == seq![0u8, 0u8]
            &&& p.command_status == 0
            &&& p.delivery_status == 0
            &&& p.retry_count == 0
            &&& p.discovery_status == 0
        },
        FrameTypes::RemoteAtRequest => {
            &&& p.length == 15 + p.data.len()
            &&& p.broadcast_radius == 0
            &&& p.command_status == 0
            &&& p.delivery_status == 0
            &&& p.retry_count == 0
            &&& p.discovery_status == 0
        },
        FrameTypes::LocalAtCommand => {
            &&& p.length == 8 + p.data.len()
            &&& p.address == seq![0u8, 0u8, 0u8, 0u8, 0u8, 0u8, 0u8, 0u8]
            &&& p.network_address == seq![0u8, 0u8]
            &&& p.options == 0
            &&& p.broadcast_radius == 0
            &&& p.delivery_status == 0
            &&& p.retry_count == 0
            &&& p.discovery_status == 0
            &&& p.command_status == 0
        },
        _ => false,
    }
}

/// Correlation key carried by a frame, by frame type: the frame id for a
/// delivery status, the embedded payload identifier for transmit/receive
/// payloads, a fixed sentinel for AT exchanges.
pub open spec fn spec_packet_identifier(p: PacketV) -> u8 {
    match p.frame_type {
        FrameTypes::TransmitStatus => p.frame_id,
        FrameTypes::TransmitRequest => p.data[0],
        FrameTypes::ReceivePacket => p.data[0],
        FrameTypes::RemoteAtRequest => 255,
        FrameTypes::RemoteAtResponse => 255,
        FrameTypes::LocalAtCommand => 255,
        FrameTypes::LocalAtResponse => 255,
        FrameTypes::Unknown => 0,
    }
}

proof fn lemma_add8_assoc(a: u8, b: u8, c: u8)
    ensures
        add8(add8(a, b), c) == add8(a, add8(b, c)),
{
}

impl FrameTypes {
    /// Frame type denoted by a wire discriminant.
    pub fn new_frame_type(val: u8) -> (t: Self)
        ensures
            t == frame_type_of(val),
    {
        if val == 0x10 {
            FrameTypes::TransmitRequest
        } else if val == 0x8B {
            FrameTypes::TransmitStatus
        } else if val == 0x90 {
            FrameTypes::ReceivePacket
        } else if val == 0x17 {
            FrameTypes::RemoteAtRequest
        } else if val == 0x97 {
            FrameTypes::RemoteAtResponse
        } else if val == 0x08 {
            FrameTypes::LocalAtCommand
        } else if val == 0x88 {
            FrameTypes::LocalAtResponse
        } else {
            FrameTypes::Unknown
        }
    }

    /// Wire discriminant of this frame type.
    pub fn type_byte(self) -> (b: u8)
        ensures
            b == spec_type_byte(self),
    {
        match self {
            FrameTypes::TransmitRequest => 0x10,
            FrameTypes::TransmitStatus => 0x8B,
            FrameTypes::ReceivePacket => 0x90,
            FrameTypes::RemoteAtRequest => 0x17,
            FrameTypes::RemoteAtResponse => 0x97,
            FrameTypes::LocalAtCommand => 0x08,
            FrameTypes::LocalAtResponse => 0x88,
            FrameTypes::Unknown => 0x00,
        }
    }
}

/// Appends every byte of a slice to a vector.
pub(crate) fn push_bytes(v: &mut Vec<u8>, s: &[u8])
    ensures
        final(v)@ == old(v)@ + s@,
{
    let ghost orig = v@;
    let mut i: usize = 0;
    while i < s.len()
        invariant
            i <= s@.len(),
            v@ == orig + s@.take(i as int),
        decreases s@.len() - i,
    {
        v.push(s[i]);
        proof {
            assert(s@.take(i + 1).drop_last() =~= s@.take(i as int));
            assert(v@ =~= orig + s@.take(i + 1));
        }
        i = i + 1;
    }
    proof {
        assert(s@.take(s@.len() as int) =~= s@);
    }
}

/// Adds every byte of a slice to an accumulator with 8-bit wraparound.
pub(crate) fn sum_slice(acc: u8, s: &[u8]) -> (r: u8)
    ensures
        r == add8(acc, wsum(s@)),
{
    let mut sum: u8 = acc;
    let mut i: usize = 0;
    while i < s.len()
        invariant
            i <= s@.len(),
            sum == add8(acc, wsum(s@.take(i as int))),
        decreases s@.len() - i,
    {
        proof {
            assert(s@.take(i + 1).drop_last() =~= s@.take(i as int));
            lemma_add8_assoc(acc, wsum(s@.take(i as int)), s@[i as int]);
        }
        sum = (((sum as u16) + (s[i] as u16)) % 256) as u8;
        i = i + 1;
    }
    proof {
        assert(s@.take(s@.len() as int) =~= s@);
    }
    sum
}

/// The checksum-covered bytes of a frame, in summing order.
fn covered_bytes(p: &Packet) -> (v: Vec<u8>)
    ensures
        v@ == covered(p@),
{
    let mut v: Vec<u8> = Vec::new();
    let tb = p.frame_type.type_byte();
    match p.frame_type {
        FrameTypes::TransmitRequest | FrameTypes::RemoteAtRequest => {
            v.push(tb);
            v.push(p.frame_id);
            push_bytes(&mut v, p.address.as_slice());
            push_bytes(&mut v, p.network_address.as_slice());
            v.push(p.options);
            push_bytes(&mut v, p.data.as_slice());
            if let FrameTypes::RemoteAtRequest = p.frame_type {
                push_bytes(&mut v, p.command.as_slice());
            }
            assert(v@ =~= covered(p@));
        },
        FrameTypes::TransmitStatus => {
            v.push(tb);
            v.push(p.frame_id);
            push_bytes(&mut v, p.network_address.as_slice());
            v.push(p.retry_count);
            v.push(p.delivery_status);
            v.push(p.discovery_status);
            assert(v@ =~= covered(p@));
        },
        FrameTypes::ReceivePacket => {
            v.push(tb);
            push_bytes(&mut v, p.address.as_slice());
            push_bytes(&mut v, p.network_address.as_slice());
            v.push(p.options);
            push_bytes(&mut v, p.data.as_slice());
            assert(v@ =~= covered(p@));
        },
        FrameTypes::RemoteAtResponse => {
            v.push(tb);
            v.push(p.frame_id);
            push_bytes(&mut v, p.address.as_slice());
            push_bytes(&mut v, p.network_address.as_slice());
            push_bytes(&mut v, p.data.as_slice());
            v.push(p.options);
            push_bytes(&mut v, p.command.as_slice());
            assert(v@ =~= covered(p@));
        },
        FrameTypes::LocalAtCommand | FrameTypes::LocalAtResponse => {
            v.push(tb);
            v.push(p.frame_id);
            push_bytes(&mut v, p.data.as_slice());
            assert(v@ =~= covered(p@));
        },
        FrameTypes::Unknown => {
            assert(v@ =~= covered(p@));
        },
    }
    v
}

/// Checksum of a borrowed frame: 255 minus the wraparound sum of the
/// type-specific covered fields.
fn checksum_for(p: &Packet) -> (r: u8)
    ensures
        r == spec_checksum(p@),
{
    let cov = covered_bytes(p);
    let sum = sum_slice(0, cov.as_slice());
    255 - sum
}

/// Checksum of a frame: 255 minus the wraparound sum of the type-specific
/// covered fields.
pub fn calculate_checksum(packet: Packet) -> (r: u8)
    ensures
        r == spec_checksum(packet@),
{
    checksum_for(&packet)
}

/// Whether a hardware address is the reserved broadcast address.
fn is_bcast(a: &[u8; 8]) -> (r: bool)
    ensures
        r == (a@ == bcast_address()),
{
    let r = a[0] == 0 && a[1] == 0 && a[2] == 0 && a[3] == 0 && a[4] == 0 && a[5] == 0 && a[6]
        == 0xFF && a[7] == 0xFF;
    proof {
        if r {
            assert(a@ =~= bcast_address());
        } else {
            assert(a@ != bcast_address());
        }
    }
    r
}

impl Packet {
    /// A frame with every field zeroed and type `None`.
    pub fn new_empty() -> (r: Self)
        ensures
            r@ == empty_packet(),
    {
        let r = Packet {
            is_broadcast: false,
            length: 0x00,
            frame_type: FrameTypes::Unknown,
            frame_id: 0x00,
            address: [0x00, 0x00, 0x00, 0x00, 0x00, 0x00, 0x00, 0x00],
            network_address: [0x00, 0x00],
            options: 0x00,
            delivery_status: 0x00,
            data: Vec::new(),
            checksum: 0x00,
            discovery_status: 0x00,
            retry_count: 0x00,
            broadcast_radius: 0x00,
            command: [0x00, 0x00],
            command_status: 0x00,
        };
        proof {
            assert(r@ =~= empty_packet());
        }
        r
    }

    /// A broadcast transmit request around the given payload, with length and
    /// checksum computed at construction.
    pub fn new_broadcast(data: &[u8]) -> (r: Self)
        requires
            data@.len() <= 65521,
        ensures
            r.frame_type == FrameTypes::TransmitRequest,
            r.is_broadcast,
            r.length == 14 + data@.len(),
            r.frame_id == 0,
            r.address@ == bcast_address(),
            r.network_address@ == seq![0xFFu8, 0xFEu8],
            r.options == 0,
            r.broadcast_radius == 0,
            r.data@ == data@,
            r.checksum == spec_checksum(r@),
            wf_outbound(r@),
    {
        let mut data_vec: Vec<u8> = Vec::new();
        push_bytes(&mut data_vec, data);
        let mut packet = Packet {
            is_broadcast: true,
            length: 14 + data.len() as u16,
            frame_type: FrameTypes::TransmitRequest,
            frame_id: 0x00,
            address: [0x00, 0x00, 0x00, 0x00, 0x00, 0x00, 0xFF, 0xFF],
            network_address: [0xFF, 0xFE],
            options: 0x00,
            delivery_status: 0x00,
            data: data_vec,
            checksum: 0x00,
            discovery_status: 0x00,
            retry_count: 0x00,
            broadcast_radius: 0x00,
            command: [0x00, 0x00],
            command_status: 0x00,
        };
        let c = checksum_for(&packet);
        packet.checksum = c;
        proof {
            assert(packet.address@ =~= bcast_address());
            assert(packet.network_address@ =~= seq![0xFFu8, 0xFEu8]);
            assert(packet.command@ =~= seq![0u8, 0u8]);
            assert(covered(packet@) =~= covered(
                PacketV { checksum: spec_checksum(packet@), ..packet@ },
            ));
        }
        packet
    }

    /// A unicast transmit request to the given destination, with length and
    /// checksum computed at construction.
    pub fn new_transmit(dest: &[u8; 8], data: &[u8]) -> (r: Self)
        requires
            data@.len() <= 65521,
        ensures
            r.frame_type == FrameTypes::TransmitRequest,
            !r.is_broadcast,
            r.length == 14 + data@.len(),
            r.frame_id == 0,
            r.address@ == dest@,
            r.network_address@ == seq![0xFFu8, 0xFEu8],
            r.options == 0,
            r.broadcast_radius == 0,
            r.data@ == data@,
            r.checksum == spec_checksum(r@),
            dest@ != bcast_address() ==> wf_outbound(r@),
    {
        let mut data_vec: Vec<u8> = Vec::new();
        push_bytes(&mut data_vec, data);
        let mut packet = Packet {
            is_broadcast: false,
            length: 14 + data.len() as u16,
            frame_type: FrameTypes::TransmitRequest,
            frame_id: 0x00,
            address: *dest,
            network_address: [0xFF, 0xFE],
            options: 0x00,
            delivery_status: 0x00,
            data: data_vec,
            checksum: 0x00,
            discovery_status: 0x00,
            retry_count: 0x00,
            broadcast_radius: 0x00,
            command: [0x00, 0x00],
            command_status: 0x00,
        };
        let c = checksum_for(&packet);
        packet.checksum = c;
        proof {
            assert(packet.network_address@ =~= seq![0xFFu8, 0xFEu8]);
            assert(packet.command@ =~= seq![0u8, 0u8]);
            assert(covered(packet@) =~= covered(
                PacketV { checksum: spec_checksum(packet@), ..packet@ },
            ));
        }
        packet
    }

    /// A remote AT request carrying a two-byte command code and parameter
    /// bytes, with length and checksum computed at construction.
    pub fn new_remote_at(dest: &[u8; 8], id: u8, command: u16, param: &[u8]) -> (r: Self)
        requires
            param@.len() <= 65520,
        ensures
            r.frame_type == FrameTypes::RemoteAtRequest,
            !r.is_broadcast,
            r.length == 15 + param@.len(),
            r.frame_id == id,
            r.address@ == dest@,
            r.network_address@ == seq![0xFFu8, 0xFEu8],
            r.options == 0,
            r.command@ == seq![(command / 256) as u8, (command % 256) as u8],
            r.data@ == param@,
            r.checksum == spec_checksum(r@),
            dest@ != bcast_address() ==> wf_outbound(r@),
    {
        let mut data_vec: Vec<u8> = Vec::new();
        push_bytes(&mut data_vec, param);
        let command_temp: [u8; 2] = [(command / 256) as u8, (command % 256) as u8];
        let mut packet = Packet {
            is_broadcast: false,
            length: 15 + param.len() as u16,
            frame_type: FrameTypes::RemoteAtRequest,
            frame_id: id,
            address: *dest,
            network_address: [0xFF, 0xFE],
            options: 0x00,
            delivery_status: 0x00,
            data: data_vec,
            checksum: 0x00,
            discovery_status: 0x00,
            retry_count: 0x00,
            broadcast_radius: 0x00,
            command: command_temp,
            command_status: 0x00,
        };
        let c = checksum_for(&packet);
        packet.checksum = c;
        proof {
            assert(packet.network_address@ =~= seq![0xFFu8, 0xFEu8]);
            assert(packet.command@ =~= seq![(command / 256) as u8, (command % 256) as u8]);
            assert(covered(packet@) =~= covered(
                PacketV { checksum: spec_checksum(packet@), ..packet@ },
            ));
        }
        packet
    }

    /// A local AT command carrying a two-byte command code and parameter
    /// bytes, with length and checksum computed at construction.
    pub fn new_local_at(id: u8, command: u16, param: &[u8]) -> (r: Self)
        requires
            param@.len() <= 65527,
        ensures
            r.frame_type == FrameTypes::LocalAtCommand,
            !r.is_broadcast,
            r.length == 8 + param@.len(),
            r.frame_id == id,
            r.address@ == seq![0u8, 0u8, 0u8, 0u8, 0u8, 0u8, 0u8, 0u8],
            r.network_address@ == seq![0u8, 0u8],
            r.options == 0,
            r.command@ == seq![(command / 256) as u8, (command % 256) as u8],
            r.data@ == param@,
            r.checksum == spec_checksum(r@),
            wf_outbound(r@),
    {
        let mut data_vec: Vec<u8> = Vec::new();
        push_bytes(&mut data_vec, param);
        let command_temp: [u8; 2] = [(command / 256) as u8, (command % 256) as u8];
        let mut packet = Packet {
            is_broadcast: false,
            length: 8 + param.len() as u16,
            frame_type: FrameTypes::LocalAtCommand,
            frame_id: id,
            address: [0x00, 0x00, 0x00, 0x00, 0x00, 0x00, 0x00, 0x00],
            network_address: [0x00, 0x00],
            options: 0x00,
            delivery_status: 0x00,
            data: data_vec,
            checksum: 0x00,
            discovery_status: 0x00,
            retry_count: 0x00,
            broadcast_radius: 0x00,
            command: command_temp,
            command_status: 0x00,
        };
        let c = checksum_for(&packet);
        packet.checksum = c;
        proof {
            assert(packet.address@ =~= seq![0u8, 0u8, 0u8, 0u8, 0u8, 0u8, 0u8, 0u8]);
            assert(packet.address@ != bcast_address());
            assert(packet.network_address@ =~= seq![0u8, 0u8]);
            assert(packet.command@ =~= seq![(command / 256) as u8, (command % 256) as u8]);
            assert(covered(packet@) =~= covered(
                PacketV { checksum: spec_checksum(packet@), ..packet@ },
            ));
        }
        packet
    }

    /// Sets the frame id and recomputes the checksum.
    pub fn set_frame_id(&mut self, identifier: u8)
        ensures
            final(self)@ == (PacketV {
                frame_id: identifier,
                checksum: final(self)@.checksum,
                ..old(self)@
            }),
            final(self).checksum == spec_checksum(final(self)@),
    {
        self.frame_id = identifier;
        let c = checksum_for(&*self);
        self.checksum = c;
        proof {
            assert(covered(self@) =~= covered(PacketV { checksum: spec_checksum(self@), ..self@ }));
            assert(final(self)@ =~= PacketV {
                frame_id: identifier,
                checksum: final(self)@.checksum,
                ..old(self)@
            });
        }
    }

    /// Inserts the correlation identifier at the front of the payload,
    /// bumps the declared length, and recomputes the checksum.
    pub fn insert_packet_identifer(&mut self, identifier: u8)
        requires
            old(self).length < 65535,
        ensures
            final(self)@ == (PacketV {
                data: old(self)@.data.insert(0, identifier),
                length: (old(self)@.length + 1) as u16,
                checksum: final(self)@.checksum,
                ..old(self)@
            }),
            final(self).checksum == spec_checksum(final(self)@),
    {
        self.data.insert(0, identifier);
        self.length = self.length + 1;
        let c = checksum_for(&*self);
        self.checksum = c;
        proof {
            assert(covered(self@) =~= covered(PacketV { checksum: spec_checksum(self@), ..self@ }));
            assert(final(self)@ =~= PacketV {
                data: old(self)@.data.insert(0, identifier),
                length: (old(self)@.length + 1) as u16,
                checksum: final(self)@.checksum,
                ..old(self)@
            });
        }
    }

    /// Correlation key of this frame, by frame type.
    pub fn get_packet_identifier(&self) -> (r: u8)
        requires
            self.frame_type == FrameTypes::TransmitRequest ==> self.data@.len() >= 1,
            self.frame_type == FrameTypes::ReceivePacket ==> self.data@.len() >= 1,
        ensures
            r == spec_packet_identifier(self@),
    {
        match self.frame_type {
            FrameTypes::TransmitStatus => self.frame_id,
            FrameTypes::TransmitRequest => self.data[0],
            FrameTypes::ReceivePacket => self.data[0],
            FrameTypes::RemoteAtRequest => 255,
            FrameTypes::RemoteAtResponse => 255,
            FrameTypes::LocalAtCommand => 255,
            FrameTypes::LocalAtResponse => 255,
            FrameTypes::Unknown => 0,
        }
    }

    /// Removes and returns the payload byte at the given position, drops
    /// the declared length by one (floored at zero), and recomputes the
    /// checksum.
    pub fn remove_packet_identifier(&mut self, pos: usize) -> (r: u8)
        requires
            pos < old(self).data@.len(),
        ensures
            r == old(self).data@[pos as int],
            final(self)@ == (PacketV {
                data: old(self)@.data.remove(pos as int),
                length: dec_len(old(self)@.length),
                checksum: final(self)@.checksum,
                ..old(self)@
            }),
            final(self).checksum == spec_checksum(final(self)@),
    {
        let r = self.data.remove(pos);
        if self.length > 0 {
            self.length = self.length - 1;
        }
        let c = checksum_for(&*self);
        self.checksum = c;
        proof {
            assert(covered(self@) =~= covered(PacketV { checksum: spec_checksum(self@), ..self@ }));
            assert(final(self)@ =~= PacketV {
                data: old(self)@.data.remove(pos as int),
                length: dec_len(old(self)@.length),
                checksum: final(self)@.checksum,
                ..old(self)@
            });
        }
        r
    }

    /// The payload bytes.
    pub fn data(&self) -> (r: &Vec<u8>)
        ensures
            r@ == self@.data,
    {
        &self.data
    }

    /// Whether the stored checksum satisfies the checksum equation.
    pub fn is_valid(&self) -> (r: bool)
        ensures
            r == (self.checksum == spec_checksum(self@)),
    {
        let c = checksum_for(self);
        self.checksum == c
    }
}

/// A declared length dropped by one, floored at zero.
pub open spec fn dec_len(l: u16) -> u16 {
    if l > 0 {
        (l - 1) as u16
    } else {
        0
    }
}

/// A frame after its leading payload byte — the correlation identifier —
/// is removed: payload shifted, declared length dropped by one (floored at
/// zero), checksum recomputed over the remaining covered bytes.
pub open spec fn strip_front(p: PacketV) -> PacketV
    recommends
        p.data.len() >= 1,
{
    let base = PacketV { data: p.data.remove(0), length: dec_len(p.length), ..p };
    PacketV { checksum: spec_checksum(base), ..base }
}

/// The all-zero frame produced by `Packet::new_empty`.
pub open spec fn empty_packet() -> PacketV {
    PacketV {
        is_broadcast: false,
        length: 0,
        frame_type: FrameTypes::Unknown,
        frame_id: 0,
        address: seq![0u8, 0u8, 0u8, 0u8, 0u8, 0u8, 0u8, 0u8],
        network_address: seq![0u8, 0u8],
        options: 0,
        delivery_status: 0,
        data: Seq::empty(),
        checksum: 0,
        retry_count: 0,
        discovery_status: 0,
        broadcast_radius: 0,
        command: seq![0u8, 0u8],
        command_status: 0,
    }
}


/// High byte of a 16-bit value.
pub open spec fn u16hi(x: u16) -> u8 {
    (x / 256) as u8
}

/// Low byte of a 16-bit value.
pub open spec fn u16lo(x: u16) -> u8 {
    (x % 256) as u8
}

/// 16-bit value from its high and low bytes.
pub open spec fn u16_of(hi: u8, lo: u8) -> u16 {
    (hi * 256 + lo) as u16
}

/// Full wire form of a frame. Only the three outbound-capable types have
/// one; every other type encodes as a single zero byte.
pub open spec fn spec_encode(p: PacketV) -> Seq<u8> {
    match p.frame_type {
        FrameTypes::TransmitRequest => seq![0x7Eu8, u16hi(p.length), u16lo(p.length), 0x10u8, p.frame_id]
            + p.address + p.network_address + seq![p.broadcast_radius, p.options] + p.data
            + seq![p.checksum],
        FrameTypes::RemoteAtRequest => seq![0x7Eu8, u16hi(p.length), u16lo(p.length), 0x17u8, p.frame_id]
            + p.address + p.network_address + seq![p.options] + p.command + p.data
            + seq![p.checksum],
        FrameTypes::LocalAtCommand => seq![0x7Eu8, u16hi(p.length), u16lo(p.length), 0x08u8, p.frame_id]
            + p.command + p.data + seq![p.checksum],
        _ => seq![0u8],
    }
}

/// Smallest declared length under which a frame type's fixed fields fit.
pub open spec fn spec_min_length(ft: FrameTypes) -> int {
    match ft {
        FrameTypes::TransmitRequest => 14,
        FrameTypes::RemoteAtRequest => 15,
        FrameTypes::LocalAtCommand => 8,
        FrameTypes::ReceivePacket => 12,
        FrameTypes::RemoteAtResponse => 15,
        FrameTypes::TransmitStatus => 1,
        FrameTypes::LocalAtResponse => 4,
        FrameTypes::Unknown => 1,
    }
}

/// Length of the variable payload, given the declared length.
pub open spec fn spec_data_len(ft: FrameTypes, length: u16) -> int {
    match ft {
        FrameTypes::TransmitRequest => length - 14,
        FrameTypes::RemoteAtRequest => length - 15,
        FrameTypes::LocalAtCommand => length - 8,
        FrameTypes::ReceivePacket => length - 12,
        FrameTypes::RemoteAtResponse => length - 15,
        FrameTypes::TransmitStatus => 0,
        FrameTypes::LocalAtResponse => length - 4,
        FrameTypes::Unknown => 0,
    }
}

/// Offset of the variable payload inside the raw buffer.
pub open spec fn spec_data_off(ft: FrameTypes) -> int {
    match ft {
        FrameTypes::TransmitRequest => 17,
        FrameTypes::RemoteAtRequest => 18,
        FrameTypes::LocalAtCommand => 7,
        FrameTypes::ReceivePacket => 15,
        FrameTypes::RemoteAtResponse => 18,
        FrameTypes::TransmitStatus => 10,
        FrameTypes::LocalAtResponse => 8,
        FrameTypes::Unknown => 4,
    }
}

/// Total bytes a decode of this frame type consumes, checksum included.
pub open spec fn spec_total(ft: FrameTypes, length: u16) -> int {
    spec_data_off(ft) + spec_data_len(ft, length) + 1
}

/// The frame denoted by a raw buffer whose start byte, declared length and
/// buffer length already passed the decoder's guards.
pub open spec fn spec_decode_fields(bytes: Seq<u8>, ft: FrameTypes, length: u16) -> PacketV {
    let n = spec_data_len(ft, length);
    let base = match ft {
        FrameTypes::TransmitRequest => PacketV {
            frame_id: bytes[4],
            address: bytes.subrange(5, 13),
            network_address: bytes.subrange(13, 15),
            broadcast_radius: bytes[15],
            options: bytes[16],
            data: bytes.subrange(17, 17 + n),
            checksum: bytes[17 + n],
            ..empty_packet()
        },
        FrameTypes::RemoteAtRequest => PacketV {
            frame_id: bytes[4],
            address: bytes.subrange(5, 13),
            network_address: bytes.subrange(13, 15),
            options: bytes[15],
            command: bytes.subrange(16, 18),
            data: bytes.subrange(18, 18 + n),
            checksum: bytes[18 + n],
            ..empty_packet()
        },
        FrameTypes::LocalAtCommand => PacketV {
            frame_id: bytes[4],
            command: bytes.subrange(5, 7),
            data: bytes.subrange(7, 7 + n),
            checksum: bytes[7 + n],
            ..empty_packet()
        },
        FrameTypes::ReceivePacket => PacketV {
            address: bytes.subrange(4, 12),
            network_address: bytes.subrange(12, 14),
            options: bytes[14],
            data: bytes.subrange(15, 15 + n),
            checksum: bytes[15 + n],
            ..empty_packet()
        },
        FrameTypes::RemoteAtResponse => PacketV {
            frame_id: bytes[4],
            address: bytes.subrange(5, 13),
            network_address: bytes.subrange(13, 15),
            command: bytes.subrange(15, 17),
            options: bytes[17],
            data: bytes.subrange(18, 18 + n),
            checksum: bytes[18 + n],
            ..empty_packet()
        },
        FrameTypes::TransmitStatus => PacketV {
            frame_id: bytes[4],
            network_address: bytes.subrange(5, 7),
            retry_count: bytes[7],
            delivery_status: bytes[8],
            discovery_status: bytes[9],
            checksum: bytes[10],
            ..empty_packet()
        },
        FrameTypes::LocalAtResponse => PacketV {
            frame_id: bytes[4],
            command: bytes.subrange(5, 7),
            command_status: bytes[7],
            data: bytes.subrange(8, 8 + n),
            checksum: bytes[8 + n],
            ..empty_packet()
        },
        FrameTypes::Unknown => empty_packet(),
    };
    PacketV {
        length,
        frame_type: ft,
        is_broadcast: base.address == bcast_address(),
        ..base
    }
}

/// The frame a raw buffer denotes, or the reason it denotes none: fewer than
/// seven bytes or a buffer too short for its type is `InsufficientData`, a
/// first byte other than 0x7E is `InvalidStartByte`, and a trailing checksum
/// that fails the checksum equation (every unrecognized type does) is
/// `InvalidChecksum`.
pub open spec fn spec_decode(bytes: Seq<u8>) -> Result<PacketV, DecodeError> {
    if bytes.len() < 7 {
        Err(DecodeError::InsufficientData)
    } else if bytes[0] != 0x7E {
        Err(DecodeError::InvalidStartByte)
    } else {
        let length = u16_of(bytes[1], bytes[2]);
        let ft = frame_type_of(bytes[3]);
        if length < 1 {
            Err(DecodeError::InsufficientData)
        } else if ft == FrameTypes::Unknown {
            Err(DecodeError::InvalidChecksum)
        } else if length < spec_min_length(ft) {
            Err(DecodeError::InsufficientData)
        } else if bytes.len() < spec_total(ft, length) {
            Err(DecodeError::InsufficientData)
        } else {
            let p = spec_decode_fields(bytes, ft, length);
            if p.checksum == spec_checksum(p) {
                Ok(p)
            } else {
                Err(DecodeError::InvalidChecksum)
            }
        }
    }
}

/// How many leading bytes a decode of this buffer consumes.
pub open spec fn spec_consumed(bytes: Seq<u8>) -> int {
    if bytes.len() < 7 {
        0
    } else if bytes[0] != 0x7E {
        1
    } else {
        let length = u16_of(bytes[1], bytes[2]);
        let ft = frame_type_of(bytes[3]);
        if length < 1 {
            0
        } else if ft == FrameTypes::Unknown {
            4
        } else if length < spec_min_length(ft) {
            0
        } else if bytes.len() < spec_total(ft, length) {
            0
        } else {
            spec_total(ft, length)
        }
    }
}

/// View of a decode result: the frame's mathematical image on success, the
/// error unchanged on failure.
pub open spec fn decode_view(r: Result<Packet, DecodeError>) -> Result<PacketV, DecodeError> {
    match r {
        Ok(p) => Ok(p@),
        Err(e) => Err(e),
    }
}

/// Removes the first `k` bytes of a vector.
pub(crate) fn drain_front(v: &mut Vec<u8>, k: usize)
    requires
        k <= old(v)@.len(),
    ensures
        final(v)@ == old(v)@.skip(k as int),
{
    let mut rest: Vec<u8> = Vec::new();
    let mut i: usize = k;
    while i < v.len()
        invariant
            k <= i <= v@.len(),
            v@ == old(v)@,
            rest@ == v@.subrange(k as int, i as int),
        decreases v@.len() - i,
    {
        let b = v[i];
        rest.push(b);
        proof {
            assert(rest@ =~= v@.subrange(k as int, i + 1));
        }
        i = i + 1;
    }
    proof {
        assert(rest@ =~= old(v)@.skip(k as int));
    }
    *v = rest;
}


/// Eight consecutive bytes of a vector as an array.
pub(crate) fn read_arr8(v: &Vec<u8>, off: usize) -> (r: [u8; 8])
    requires
        off + 8 <= v@.len(),
    ensures
        r@ == v@.subrange(off as int, off as int + 8),
{
    let cap: usize = v.len();
    let r: [u8; 8] = [
        v[off],
        v[off + 1],
        v[off + 2],
        v[off + 3],
        v[off + 4],
        v[off + 5],
        v[off + 6],
        v[off + 7],
    ];
    proof {
        assert(r@ =~= v@.subrange(off as int, off as int + 8));
    }
    r
}

/// Two consecutive bytes of a vector as an array.
pub(crate) fn read_arr2(v: &Vec<u8>, off: usize) -> (r: [u8; 2])
    requires
        off + 2 <= v@.len(),
    ensures
        r@ == v@.subrange(off as int, off as int + 2),
{
    let cap: usize = v.len();
    let r: [u8; 2] = [v[off], v[off + 1]];
    proof {
        assert(r@ =~= v@.subrange(off as int, off as int + 2));
    }
    r
}

/// `n` consecutive bytes of a vector, starting at `off`, as a new vector.
pub(crate) fn read_vec(v: &Vec<u8>, off: usize, n: usize) -> (r: Vec<u8>)
    requires
        off + n <= v@.len(),
    ensures
        r@ == v@.subrange(off as int, off as int + n),
{
    let cap: usize = v.len();
    let mut r: Vec<u8> = Vec::new();
    let mut i: usize = 0;
    while i < n
        invariant
            i <= n,
            off + n <= v@.len(),
            v@.len() <= usize::MAX,
            r@ == v@.subrange(off as int, off as int + i),
        decreases n - i,
    {
        r.push(v[off + i]);
        proof {
            assert(r@ =~= v@.subrange(off as int, off as int + i + 1));
        }
        i = i + 1;
    }
    r
}

impl Packet {
    /// Full wire form of this frame. Only the three outbound-capable types
    /// are emitted; every other type yields a single zero byte.
    pub fn as_bytes(&self) -> (r: Vec<u8>)
        ensures
            r@ == spec_encode(self@),
    {
        let mut bytes: Vec<u8> = Vec::new();
        match self.frame_type {
            FrameTypes::TransmitRequest => {
                bytes.push(0x7E);
                bytes.push((self.length / 256) as u8);
                bytes.push((self.length % 256) as u8);
                bytes.push(0x10);
                bytes.push(self.frame_id);
                push_bytes(&mut bytes, self.address.as_slice());
                push_bytes(&mut bytes, self.network_address.as_slice());
                bytes.push(self.broadcast_radius);
                bytes.push(self.options);
                push_bytes(&mut bytes, self.data.as_slice());
                bytes.push(self.checksum);
                proof {
                    assert(bytes@ =~= spec_encode(self@));
                }
            },
            FrameTypes::RemoteAtRequest => {
                bytes.push(0x7E);
                bytes.push((self.length / 256) as u8);
                bytes.push((self.length % 256) as u8);
                bytes.push(0x17);
                bytes.push(self.frame_id);
                push_bytes(&mut bytes, self.address.as_slice());
                push_bytes(&mut bytes, self.network_address.as_slice());
                bytes.push(self.options);
                push_bytes(&mut bytes, self.command.as_slice());
                push_bytes(&mut bytes, self.data.as_slice());
                bytes.push(self.checksum);
                proof {
                    assert(bytes@ =~= spec_encode(self@));
                }
            },
            FrameTypes::LocalAtCommand => {
                bytes.push(0x7E);
                bytes.push((self.length / 256) as u8);
                bytes.push((self.length % 256) as u8);
                bytes.push(0x08);
                bytes.push(self.frame_id);
                push_bytes(&mut bytes, self.command.as_slice());
                push_bytes(&mut bytes, self.data.as_slice());
                bytes.push(self.checksum);
                proof {
                    assert(bytes@ =~= spec_encode(self@));
                }
            },
            _ => {
                bytes.push(0x00);
                proof {
                    assert(bytes@ =~= spec_encode(self@));
                }
            },
        }
        bytes
    }

    /// Decodes one frame from the front of a raw buffer, consuming exactly
    /// the bytes the frame's type demands, and validating the checksum.
    pub fn from_data(raw: &mut Vec<u8>) -> (r: Result<Self, DecodeError>)
        ensures
            decode_view(r) == spec_decode(old(raw)@),
            final(raw)@ == old(raw)@.skip(spec_consumed(old(raw)@)),
    {
        if raw.len() < 7 {
            return Err(DecodeError::InsufficientData);
        }
        if raw[0] != 0x7E {
            drain_front(raw, 1);
            return Err(DecodeError::InvalidStartByte);
        }
        let length: u16 = (raw[1] as u16) * 256 + (raw[2] as u16);
        let ft = FrameTypes::new_frame_type(raw[3]);
        if length < 1 {
            return Err(DecodeError::InsufficientData);
        }
        let mut packet = Packet::new_empty();
        packet.length = length;
        packet.frame_type = ft;
        match ft {
            FrameTypes::Unknown => {
                drain_front(raw, 4);
                return Err(DecodeError::InvalidChecksum);
            },
            FrameTypes::ReceivePacket => {
                if length < 12 {
                    return Err(DecodeError::InsufficientData);
                }
                let n: usize = (length - 12) as usize;
                if raw.len() < 16 + n {
                    return Err(DecodeError::InsufficientData);
                }
                packet.address = read_arr8(raw, 4);
                packet.network_address = read_arr2(raw, 12);
                packet.options = raw[14];
                packet.data = read_vec(raw, 15, n);
                packet.checksum = raw[15 + n];
                packet.is_broadcast = is_bcast(&packet.address);
                proof {
                    assert(packet@ =~= spec_decode_fields(raw@, ft, length));
                }
                drain_front(raw, 16 + n);
            },
            FrameTypes::RemoteAtResponse => {
                if length < 15 {
                    return Err(DecodeError::InsufficientData);
                }
                let n: usize = (length - 15) as usize;
                if raw.len() < 19 + n {
                    return Err(DecodeError::InsufficientData);
                }
                packet.frame_id = raw[4];
                packet.address = read_arr8(raw, 5);
                packet.network_address = read_arr2(raw, 13);
                packet.command = read_arr2(raw, 15);
                packet.options = raw[17];
                packet.data = read_vec(raw, 18, n);
                packet.checksum = raw[18 + n];
                packet.is_broadcast = is_bcast(&packet.address);
                proof {
                    assert(packet@ =~= spec_decode_fields(raw@, ft, length));
                }
                drain_front(raw, 19 + n);
            },
            FrameTypes::TransmitStatus => {
                if raw.len() < 11 {
                    return Err(DecodeError::InsufficientData);
                }
                packet.frame_id = raw[4];
                packet.network_address = read_arr2(raw, 5);
                packet.retry_count = raw[7];
                packet.delivery_status = raw[8];
                packet.discovery_status = raw[9];
                packet.checksum = raw[10];
                packet.is_broadcast = is_bcast(&packet.address);
                proof {
                    assert(packet@ =~= spec_decode_fields(raw@, ft, length));
                }
                drain_front(raw, 11);
            },
            FrameTypes::LocalAtResponse => {
                if length < 4 {
                    return Err(DecodeError::InsufficientData);
                }
                let n: usize = (length - 4) as usize;
                if raw.len() < 9 + n {
                    return Err(DecodeError::InsufficientData);
                }
                packet.frame_id = raw[4];
                packet.command = read_arr2(raw, 5);
                packet.command_status = raw[7];
                packet.data = read_vec(raw, 8, n);
                packet.checksum = raw[8 + n];
                packet.is_broadcast = is_bcast(&packet.address);
                proof {
                    assert(packet@ =~= spec_decode_fields(raw@, ft, length));
                }
                drain_front(raw, 9 + n);
            },
            FrameTypes::TransmitRequest => {
                if length < 14 {
                    return Err(DecodeError::InsufficientData);
                }
                let n: usize = (length - 14) as usize;
                if raw.len() < 18 + n {
                    return Err(DecodeError::InsufficientData);
                }
                packet.frame_id = raw[4];
                packet.address = read_arr8(raw, 5);
                packet.network_address = read_arr2(raw, 13);
                packet.broadcast_radius = raw[15];
                packet.options = raw[16];
                packet.data = read_vec(raw, 17, n);
                packet.checksum = raw[17 + n];
                packet.is_broadcast = is_bcast(&packet.address);
                proof {
                    assert(packet@ =~= spec_decode_fields(raw@, ft, length));
                }
                drain_front(raw, 18 + n);
            },
            FrameTypes::RemoteAtRequest => {
                if length < 15 {
                    return Err(DecodeError::InsufficientData);
                }
                let n: usize = (length - 15) as usize;
                if raw.len() < 19 + n {
                    return Err(DecodeError::InsufficientData);
                }
                packet.frame_id = raw[4];
                packet.address = read_arr8(raw, 5);
                packet.network_address = read_arr2(raw, 13);
                packet.options = raw[15];
                packet.command = read_arr2(raw, 16);
                packet.data = read_vec(raw, 18, n);
                packet.checksum = raw[18 + n];
                packet.is_broadcast = is_bcast(&packet.address);
                proof {
                    assert(packet@ =~= spec_decode_fields(raw@, ft, length));
                }
                drain_front(raw, 19 + n);
            },
            FrameTypes::LocalAtCommand => {
                if length < 8 {
                    return Err(DecodeError::InsufficientData);
                }
                let n: usize = (length - 8) as usize;
                if raw.len() < 8 + n {
                    return Err(DecodeError::InsufficientData);
                }
                packet.frame_id = raw[4];
                packet.command = read_arr2(raw, 5);
                packet.data = read_vec(raw, 7, n);
                packet.checksum = raw[7 + n];
                packet.is_broadcast = is_bcast(&packet.address);
                proof {
                    assert(packet@ =~= spec_decode_fields(raw@, ft, length));
                }
                drain_front(raw, 8 + n);
            },
        }
        let c = checksum_for(&packet);
        if packet.checksum == c {
            Ok(packet)
        } else {
            Err(DecodeError::InvalidChecksum)
        }
    }
}


/// Changing a single byte of a sequence always shifts its wraparound sum:
/// the sum moves by the byte's difference, which is nonzero modulo 256.
pub proof fn lemma_wsum_single_change(s: Seq<u8>, i: int, b: u8)
    requires
        0 <= i < s.len(),
        s[i] != b,
    ensures
        wsum(s.update(i, b)) != wsum(s),
    decreases s.len(),
{
    let t = s.update(i, b);
    if i == s.len() - 1 {
        assert(t.drop_last() =~= s.drop_last());
        assert(t.last() == b);
        assert(s.last() == s[i]);
        assert(add8(wsum(s.drop_last()), b) != add8(wsum(s.drop_last()), s[i]));
    } else {
        assert(t.drop_last() =~= s.drop_last().update(i, b));
        assert(t.last() == s.last());
        lemma_wsum_single_change(s.drop_last(), i, b);
        assert(add8(wsum(t.drop_last()), s.last()) != add8(wsum(s.drop_last()), s.last()));
    }
}

/// Law: a frame's stored checksum is valid exactly when it equals 255 minus
/// the wraparound sum of the covered fields, so changing any single covered
/// byte without recomputing the checksum makes the frame invalid: the
/// wraparound sum shifts, and with it the only checksum the equation
/// accepts.
pub proof fn lemma_checksum_detects_change(p: PacketV, q: PacketV, i: int, b: u8)
    requires
        p.checksum == spec_checksum(p),
        q.checksum == p.checksum,
        0 <= i < covered(p).len(),
        covered(p)[i] != b,
        covered(q) == covered(p).update(i, b),
    ensures
        q.checksum != spec_checksum(q),
{
    lemma_wsum_single_change(covered(p), i, b);
}

/// Law: decoding the encoding of any well-formed outbound-capable frame
/// yields that frame back, for every one of the three outbound types.
#[verifier::rlimit(30)]
pub proof fn lemma_decode_encode(v: PacketV)
    requires
        wf_outbound(v),
    ensures
        spec_decode(spec_encode(v)) == Ok::<PacketV, DecodeError>(v),
{
    let e = spec_encode(v);
    let length = v.length;
    assert(length == 256 * (length / 256) + (length % 256));
    match v.frame_type {
        FrameTypes::TransmitRequest => {
            let n = v.data.len() as int;
            assert(e.len() == 18 + n);
            assert(e[0] == 0x7E && e[3] == 0x10);
            assert(u16_of(e[1], e[2]) == length);
            let p = spec_decode_fields(e, FrameTypes::TransmitRequest, length);
            assert(e.subrange(5, 13) =~= v.address);
            assert(e.subrange(13, 15) =~= v.network_address);
            assert(e.subrange(17, 17 + n) =~= v.data);
            assert(p.command =~= v.command);
            assert(p =~= v);
        },
        FrameTypes::RemoteAtRequest => {
            let n = v.data.len() as int;
            assert(e.len() == 19 + n);
            assert(e[0] == 0x7E && e[3] == 0x17);
            assert(u16_of(e[1], e[2]) == length);
            let p = spec_decode_fields(e, FrameTypes::RemoteAtRequest, length);
            assert(e.subrange(5, 13) =~= v.address);
            assert(e.subrange(13, 15) =~= v.network_address);
            assert(e.subrange(16, 18) =~= v.command);
            assert(e.subrange(18, 18 + n) =~= v.data);
            assert(p =~= v);
        },
        FrameTypes::LocalAtCommand => {
            let n = v.data.len() as int;
            assert(e.len() == 8 + n);
            assert(e[0] == 0x7E && e[3] == 0x08);
            assert(u16_of(e[1], e[2]) == length);
            let p = spec_decode_fields(e, FrameTypes::LocalAtCommand, length);
            assert(e.subrange(5, 7) =~= v.command);
            assert(e.subrange(7, 7 + n) =~= v.data);
            assert(p.address =~= v.address);
            assert(p.network_address =~= v.network_address);
            assert(p =~= v);
        },
        _ => {},
    }
}


/// Whether two byte vectors hold the same bytes.
pub(crate) fn vec_u8_eq(a: &Vec<u8>, b: &Vec<u8>) -> (r: bool)
    ensures
        r == (a@ == b@),
{
    if a.len() != b.len() {
        proof {
            assert(a@ != b@);
        }
        return false;
    }
    let mut i: usize = 0;
    while i < a.len()
        invariant
            i <= a@.len(),
            a@.len() == b@.len(),
            forall|j: int| 0 <= j < i ==> a@[j] == b@[j],
        decreases a@.len() - i,
    {
        if a[i] != b[i] {
            proof {
                assert(a@ != b@);
            }
            return false;
        }
        i = i + 1;
    }
    proof {
        assert(a@ =~= b@);
    }
    true
}

/// Whether two hardware addresses are the same.
pub(crate) fn bytes8_eq(a: &[u8; 8], b: &[u8; 8]) -> (r: bool)
    ensures
        r == (a@ == b@),
{
    let r = a[0] == b[0] && a[1] == b[1] && a[2] == b[2] && a[3] == b[3] && a[4] == b[4] && a[5]
        == b[5] && a[6] == b[6] && a[7] == b[7];
    proof {
        if r {
            assert(a@ =~= b@);
        } else {
            assert(a@ != b@);
        }
    }
    r
}

impl Clone for Packet {
    /// A field-identical copy of the frame.
    fn clone(&self) -> (res: Self)
        ensures
            res@ == self@,
    {
        let res = Packet {
            is_broadcast: self.is_broadcast,
            length: self.length,
            frame_type: self.frame_type,
            frame_id: self.frame_id,
            address: self.address,
            network_address: self.network_address,
            options: self.options,
            delivery_status: self.delivery_status,
            data: read_vec(&self.data, 0, self.data.len()),
            checksum: self.checksum,
            retry_count: self.retry_count,
            discovery_status: self.discovery_status,
            broadcast_radius: self.broadcast_radius,
            command: self.command,
            command_status: self.command_status,
        };
        proof {
            assert(self.data@.subrange(0, self.data@.len() as int) =~= self.data@);
            assert(res@ =~= self@);
        }
        res
    }
}

} // verus!
