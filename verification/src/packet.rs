//! The wire packet and its codec.
//!
//! A packet travels as a 7-byte big-endian header followed by the payload
//! bytes: protocol id (4 bytes), sequence id (2 bytes), one type byte, then
//! the payload, which is meaningful only for `Message` packets.

use vstd::prelude::*;

verus! {

/// Headers for various different built-in message types.
#[derive(PartialEq, Eq, Structural, Clone, Copy, Debug)]
pub enum PacketType {
    Connect,
    Accept,
    Reject,
    Disconnect,
    Message,
}

/// Commands to send to the background tasks that pump the socket.
#[derive(PartialEq, Eq, Structural, Clone, Copy, Debug)]
pub enum TaskCommand {
    Disconnect,
}

/// Decoding failed: fewer than 7 bytes, or an unknown type byte.
#[derive(PartialEq, Eq, Structural, Clone, Copy, Debug)]
pub enum PacketError {
    MalformedPacket,
}

/// The underlying shape for transferring data.
#[derive(Clone, Debug)]
pub struct Packet {
    pub protocol_id: u32,
    /// The current id of the packet
    pub sequence_id: u16,
    pub packet_type: PacketType,
    /// Serialized user data goes in here
    pub packet_content: Option<Vec<u8>>,
}

/// The mathematical model of a packet: the same fields, with the payload as
/// a byte sequence.
pub ghost struct AbstractPacket {
    pub protocol_id: u32,
    pub sequence_id: u16,
    pub packet_type: PacketType,
    pub packet_content: Option<Seq<u8>>,
}

impl AbstractPacket {
    /// A packet is well formed when it carries a payload exactly if it is a
    /// `Message`.
    pub open spec fn wf(self) -> bool {
        self.packet_content is Some <==> self.packet_type is Message
    }
}

impl View for Packet {
    type V = AbstractPacket;

    open spec fn view(&self) -> AbstractPacket {
        AbstractPacket {
            protocol_id: self.protocol_id,
            sequence_id: self.sequence_id,
            packet_type: self.packet_type,
            packet_content: match self.packet_content {
                Some(c) => Some(c@),
                None => None,
            },
        }
    }
}

/// The byte that stands for each packet type on the wire.
pub open spec fn packet_type_code(t: PacketType) -> u8 {
    match t {
        PacketType::Connect => 0u8,
        PacketType::Accept => 1u8,
        PacketType::Reject => 2u8,
        PacketType::Disconnect => 3u8,
        PacketType::Message => 4u8,
    }
}

/// The packet type a wire byte stands for, if any.
pub open spec fn packet_type_of_code(code: u8) -> Option<PacketType> {
    if code == 0 {
        Some(PacketType::Connect)
    } else if code == 1 {
        Some(PacketType::Accept)
    } else if code == 2 {
        Some(PacketType::Reject)
    } else if code == 3 {
        Some(PacketType::Disconnect)
    } else if code == 4 {
        Some(PacketType::Message)
    } else {
        None
    }
}

/// A 32-bit value read from four big-endian bytes.
pub open spec fn u32_from_be(b0: u8, b1: u8, b2: u8, b3: u8) -> u32 {
    (((b0 as u32) << 24) | ((b1 as u32) << 16) | ((b2 as u32) << 8) | (b3 as u32)) as u32
}

/// A 16-bit value read from two big-endian bytes.
pub open spec fn u16_from_be(b0: u8, b1: u8) -> u16 {
    (((b0 as u16) << 8) | (b1 as u16)) as u16
}

/// The payload bytes of a packet: empty when it carries none.
pub open spec fn spec_content(p: AbstractPacket) -> Seq<u8> {
    match p.packet_content {
        Some(c) => c,
        None => Seq::empty(),
    }
}

/// The 7-byte big-endian header of a packet.
pub open spec fn spec_header(p: AbstractPacket) -> Seq<u8> {
    seq![
        (p.protocol_id >> 24) as u8,
        (p.protocol_id >> 16) as u8,
        (p.protocol_id >> 8) as u8,
        p.protocol_id as u8,
        (p.sequence_id >> 8) as u8,
        p.sequence_id as u8,
        packet_type_code(p.packet_type),
    ]
}

/// The encoding of a packet: its header followed by its payload bytes.
pub open spec fn spec_serialize(p: AbstractPacket) -> Seq<u8> {
    spec_header(p) + spec_content(p)
}

/// The decoding of a byte sequence. Fails on fewer than 7 bytes or an
/// unknown type byte; for a `Message` the payload is exactly the trailing
/// bytes (possibly empty), and for every other type the trailing bytes are
/// ignored.
pub open spec fn spec_deserialize(b: Seq<u8>) -> Option<AbstractPacket> {
    if b.len() < 7 {
        None
    } else {
        match packet_type_of_code(b[6]) {
            Some(t) => Some(
                AbstractPacket {
                    protocol_id: u32_from_be(b[0], b[1], b[2], b[3]),
                    sequence_id: u16_from_be(b[4], b[5]),
                    packet_type: t,
                    packet_content: if t is Message {
                        Some(b.skip(7))
                    } else {
                        None
                    },
                },
            ),
            None => None,
        }
    }
}

/// Splitting a 32-bit value into big-endian bytes and reading them back
/// yields the value again.
proof fn lemma_u32_be_round_trip(x: u32)
    ensures
        u32_from_be((x >> 24) as u8, (x >> 16) as u8, (x >> 8) as u8, x as u8) == x,
{
    assert((((((x >> 24) as u8) as u32) << 24) | ((((x >> 16) as u8) as u32) << 16) | ((((x
        >> 8) as u8) as u32) << 8) | ((x as u8) as u32)) as u32 == x) by (bit_vector);
}

/// Splitting a 16-bit value into big-endian bytes and reading them back
/// yields the value again.
proof fn lemma_u16_be_round_trip(x: u16)
    ensures
        u16_from_be((x >> 8) as u8, x as u8) == x,
{
    assert((((((x >> 8) as u8) as u16) << 8) | ((x as u8) as u16)) as u16 == x) by (bit_vector);
}

/// Law: decoding an encoded well-formed packet gives the packet back.
pub proof fn lemma_round_trip(p: AbstractPacket)
    requires
        p.wf(),
    ensures
        spec_deserialize(spec_serialize(p)) == Some(p),
{
    let b = spec_serialize(p);
    assert(b.len() == 7 + spec_content(p).len());
    assert(b[6] == packet_type_code(p.packet_type));
    lemma_u32_be_round_trip(p.protocol_id);
    lemma_u16_be_round_trip(p.sequence_id);
    assert(b.skip(7) =~= spec_content(p));
    let q = spec_deserialize(b)->0;
    assert(q.packet_content == p.packet_content);
    assert(q =~= p);
}

/// Law: decoding fails on every byte sequence shorter than 7 bytes or whose
/// type byte is outside the known range.
pub proof fn lemma_deserialize_malformed(b: Seq<u8>)
    requires
        b.len() < 7 || b[6] > 4,
    ensures
        spec_deserialize(b) is None,
{
}

impl Packet {
    pub fn connect(protocol_id: u32, sequence_id: u16) -> (r: Packet)
        ensures
            r@ == (AbstractPacket {
                protocol_id,
                sequence_id,
                packet_type: PacketType::Connect,
                packet_content: None,
            }),
            r@.wf(),
    {
        Packet { protocol_id, sequence_id, packet_type: PacketType::Connect, packet_content: None }
    }

    pub fn disconnect(protocol_id: u32, sequence_id: u16) -> (r: Packet)
        ensures
            r@ == (AbstractPacket {
                protocol_id,
                sequence_id,
                packet_type: PacketType::Disconnect,
                packet_content: None,
            }),
            r@.wf(),
    {
        Packet {
            protocol_id,
            sequence_id,
            packet_type: PacketType::Disconnect,
            packet_content: None,
        }
    }

    pub fn accept(protocol_id: u32, sequence_id: u16) -> (r: Packet)
        ensures
            r@ == (AbstractPacket {
                protocol_id,
                sequence_id,
                packet_type: PacketType::Accept,
                packet_content: None,
            }),
            r@.wf(),
    {
        Packet { protocol_id, sequence_id, packet_type: PacketType::Accept, packet_content: None }
    }

    pub fn reject(protocol_id: u32, sequence_id: u16) -> (r: Packet)
        ensures
            r@ == (AbstractPacket {
                protocol_id,
                sequence_id,
                packet_type: PacketType::Reject,
                packet_content: None,
            }),
            r@.wf(),
    {
        Packet { protocol_id, sequence_id, packet_type: PacketType::Reject, packet_content: None }
    }

    pub fn message(protocol_id: u32, sequence_id: u16, message: Vec<u8>) -> (r: Packet)
        ensures
            r@ == (AbstractPacket {
                protocol_id,
                sequence_id,
                packet_type: PacketType::Message,
                packet_content: Some(message@),
            }),
            r.packet_content == Some(message),
            r@.wf(),
    {
        Packet {
            protocol_id,
            sequence_id,
            packet_type: PacketType::Message,
            packet_content: Some(message),
        }
    }

    /// Decode a packet from raw bytes. Fails with `MalformedPacket` exactly
    /// when fewer than 7 bytes are given or the type byte is unknown.
    pub fn deserialize(raw: &[u8]) -> (r: Result<Packet, PacketError>)
        ensures
            match r {
                Ok(p) => spec_deserialize(raw@) == Some(p@),
                Err(e) => spec_deserialize(raw@) is None && e == PacketError::MalformedPacket,
            },
    {
        if raw.len() < 7 {
            return Err(PacketError::MalformedPacket);
        }
        let protocol_id = u32_read_be(raw[0], raw[1], raw[2], raw[3]);
        let sequence_id = u16_read_be(raw[4], raw[5]);
        let packet_type = match raw[6] {
            0 => PacketType::Connect,
            1 => PacketType::Accept,
            2 => PacketType::Reject,
            3 => PacketType::Disconnect,
            4 => PacketType::Message,
            _ => {
                return Err(PacketError::MalformedPacket);
            },
        };
        let packet_content = if let PacketType::Message = packet_type {
            let mut content: Vec<u8> = Vec::new();
            let mut i: usize = 7;
            while i < raw.len()
                invariant
                    7 <= i <= raw.len(),
                    content@ =~= raw@.subrange(7, i as int),
                decreases raw.len() - i,
            {
                content.push(raw[i]);
                i = i + 1;
            }
            assert(content@ =~= raw@.skip(7));
            Some(content)
        } else {
            None
        };
        Ok(Packet { protocol_id, sequence_id, packet_type, packet_content })
    }

    /// Encode this packet: the 7-byte big-endian header, then the payload
    /// bytes if there are any. Always succeeds.
    pub fn serialize(&self) -> (r: Result<Vec<u8>, PacketError>)
        ensures
            r matches Ok(bytes) && bytes@ == spec_serialize(self@),
    {
        let mut w: Vec<u8> = Vec::new();
        w.push((self.protocol_id >> 24) as u8);
        w.push((self.protocol_id >> 16) as u8);
        w.push((self.protocol_id >> 8) as u8);
        w.push(self.protocol_id as u8);
        w.push((self.sequence_id >> 8) as u8);
        w.push(self.sequence_id as u8);
        w.push(match self.packet_type {
            PacketType::Connect => 0,
            PacketType::Accept => 1,
            PacketType::Reject => 2,
            PacketType::Disconnect => 3,
            PacketType::Message => 4,
        });
        match &self.packet_content {
            Some(content) => {
                let mut i: usize = 0;
                while i < content.len()
                    invariant
                        0 <= i <= content.len(),
                        w@ =~= spec_header(self@) + content@.subrange(0, i as int),
                    decreases content.len() - i,
                {
                    w.push(content[i]);
                    i = i + 1;
                }
            },
            None => {},
        }
        assert(w@ =~= spec_serialize(self@));
        Ok(w)
    }
}

/// Read a 32-bit big-endian value from four bytes.
fn u32_read_be(b0: u8, b1: u8, b2: u8, b3: u8) -> (r: u32)
    ensures
        r == u32_from_be(b0, b1, b2, b3),
{
    ((b0 as u32) << 24) | ((b1 as u32) << 16) | ((b2 as u32) << 8) | (b3 as u32)
}

/// Read a 16-bit big-endian value from two bytes.
fn u16_read_be(b0: u8, b1: u8) -> (r: u16)
    ensures
        r == u16_from_be(b0, b1),
{
    ((b0 as u16) << 8) | (b1 as u16)
}

/// Compare two byte vectors for equal contents.
fn bytes_eq(a: &Vec<u8>, b: &Vec<u8>) -> (r: bool)
    ensures
        r == (a@ == b@),
{
    if a.len() != b.len() {
        return false;
    }
    let mut i: usize = 0;
    while i < a.len()
        invariant
            0 <= i <= a.len(),
            a.len() == b.len(),
            forall|j: int| 0 <= j < i ==> a@[j] == b@[j],
        decreases a.len() - i,
    {
        if a[i] != b[i] {
            return false;
        }
        i = i + 1;
    }
    proof {
        assert(a@ =~= b@);
    }
    true
}

impl PartialEq for Packet {
    fn eq(&self, other: &Packet) -> (r: bool) {
        let header_eq = self.protocol_id == other.protocol_id && self.sequence_id
            == other.sequence_id && self.packet_type == other.packet_type;
        let content_eq = match (&self.packet_content, &other.packet_content) {
            (Some(a), Some(b)) => bytes_eq(a, b),
            (None, None) => true,
            _ => false,
        };
        header_eq && content_eq
    }
}

impl vstd::std_specs::cmp::PartialEqSpecImpl for Packet {
    open spec fn obeys_eq_spec() -> bool {
        true
    }

    open spec fn eq_spec(&self, other: &Packet) -> bool {
        self@ == other@
    }
}

} // verus!
