//! Packets and their wire format.
//!
//! ```text
//! offset  size        field
//! 0       4           sequence (big-endian)
//! 4       4           ack.ack_begin (big-endian)
//! 8       1           ack.ack_end
//! 9       1           flags: p_type << 4 | ack << 3 | enc << 2
//! 10      1           ack.miss_count
//! 11      miss_count  ack.miss
//! ...     rest        payload
//! ```
use vstd::prelude::*;

use crate::acknowledgement::Acknowledgement;
use crate::error::AetherError;
use crate::util::{be32, be32_value, compile_u32, lemma_be32_value, read_u32};

verus! {

/// The length of the fixed part of the header.
pub const HEADER_SIZE: usize = 11;

/// The kind of a packet, carried in the high nibble of the flags byte.
#[derive(Debug, Clone, Copy, PartialEq, Eq, Structural)]
pub enum PType {
    Data,
    AckOnly,
    Initiation,
    KeyExchange,
    Extended,
}

/// The code of a packet kind on the wire.
pub open spec fn ptype_code(t: PType) -> u8 {
    match t {
        PType::Data => 0,
        PType::AckOnly => 1,
        PType::Initiation => 2,
        PType::KeyExchange => 7,
        PType::Extended => 15,
    }
}

/// The packet kind of a code; unknown codes read as `Extended`.
pub open spec fn ptype_of(code: u8) -> PType {
    if code == 0 {
        PType::Data
    } else if code == 1 {
        PType::AckOnly
    } else if code == 2 {
        PType::Initiation
    } else if code == 7 {
        PType::KeyExchange
    } else {
        PType::Extended
    }
}

impl PType {
    /// The code of this kind on the wire.
    pub fn code(self) -> (r: u8)
        ensures
            r == ptype_code(self),
    {
        match self {
            PType::Data => 0,
            PType::AckOnly => 1,
            PType::Initiation => 2,
            PType::KeyExchange => 7,
            PType::Extended => 15,
        }
    }

    /// The kind that a code stands for; unknown codes give `Extended`.
    pub fn from_code(code: u8) -> (r: PType)
        ensures
            r == ptype_of(code),
    {
        match code {
            0 => PType::Data,
            1 => PType::AckOnly,
            2 => PType::Initiation,
            7 => PType::KeyExchange,
            _ => PType::Extended,
        }
    }
}

impl From<PType> for u8 {
    fn from(p_type: PType) -> u8 {
        p_type.code()
    }
}

impl vstd::std_specs::convert::FromSpecImpl<PType> for u8 {
    open spec fn obeys_from_spec() -> bool {
        true
    }

    open spec fn from_spec(p_type: PType) -> u8 {
        ptype_code(p_type)
    }
}

impl From<u8> for PType {
    fn from(p_type: u8) -> PType {
        PType::from_code(p_type)
    }
}

impl vstd::std_specs::convert::FromSpecImpl<u8> for PType {
    open spec fn obeys_from_spec() -> bool {
        true
    }

    open spec fn from_spec(p_type: u8) -> PType {
        ptype_of(p_type)
    }
}

/// The flags byte of a packet.
#[derive(Debug, Clone, Copy, PartialEq, Eq, Structural)]
pub struct PacketFlags {
    pub p_type: PType,
    /// The packet carries an acknowledgement summary.
    pub ack: bool,
    /// The payload is encrypted.
    pub enc: bool,
}

/// The flags byte of the given flags.
pub open spec fn flags_byte(f: PacketFlags) -> u8 {
    (ptype_code(f.p_type) * 16 + (if f.ack { 8int } else { 0 }) + (if f.enc { 4int } else { 0 })) as u8
}

/// The flags that a flags byte stands for.
pub open spec fn flags_of(byte: u8) -> PacketFlags {
    PacketFlags {
        p_type: ptype_of(byte / 16),
        ack: (byte / 8) % 2 == 1,
        enc: (byte / 4) % 2 == 1,
    }
}

impl PacketFlags {
    /// The flags byte: kind in the high nibble, then the `ack` and `enc` bits.
    pub fn get_byte(&self) -> (r: u8)
        ensures
            r == flags_byte(*self),
    {
        let mut byte: u8 = self.p_type.code() * 16;
        if self.ack {
            byte = byte + 8;
        }
        if self.enc {
            byte = byte + 4;
        }
        byte
    }

    /// Read the flags from a flags byte.
    pub fn from_byte(byte: u8) -> (r: PacketFlags)
        ensures
            r == flags_of(byte),
    {
        PacketFlags {
            p_type: PType::from_code(byte / 16),
            ack: (byte / 8) % 2 == 1,
            enc: (byte / 4) % 2 == 1,
        }
    }
}

impl From<u8> for PacketFlags {
    fn from(byte: u8) -> PacketFlags {
        PacketFlags::from_byte(byte)
    }
}

impl vstd::std_specs::convert::FromSpecImpl<u8> for PacketFlags {
    open spec fn obeys_from_spec() -> bool {
        true
    }

    open spec fn from_spec(byte: u8) -> PacketFlags {
        flags_of(byte)
    }
}

/// Timing data of a meta marker in the sender's batch; never on the wire.
#[derive(Debug, Clone, Copy, PartialEq, Eq, Structural)]
pub struct PacketMeta {
    pub delay_ms: u64,
    pub retry_count: i16,
}

/// A framed unit of the protocol.
#[derive(Debug)]
pub struct Packet {
    pub flags: PacketFlags,
    pub sequence: u32,
    pub ack: Acknowledgement,
    pub payload: Vec<u8>,
    /// Marks an in-memory timer token of the sender's batch.
    pub is_meta: bool,
    pub meta: PacketMeta,
}

/// The abstract value of a [`Packet`].
pub struct PacketModel {
    pub flags: PacketFlags,
    pub sequence: u32,
    pub ack_begin: u32,
    pub ack_end: u8,
    pub miss_count: u8,
    pub miss: Seq<u8>,
    pub payload: Seq<u8>,
    pub is_meta: bool,
    pub meta: PacketMeta,
}

impl View for Packet {
    type V = PacketModel;

    open spec fn view(&self) -> PacketModel {
        PacketModel {
            flags: self.flags,
            sequence: self.sequence,
            ack_begin: self.ack.ack_begin,
            ack_end: self.ack.ack_end,
            miss_count: self.ack.miss_count,
            miss: self.ack.miss@,
            payload: self.payload@,
            is_meta: self.is_meta,
            meta: self.meta,
        }
    }
}

impl PacketModel {
    /// A packet that the wire format can carry unchanged: its miss list
    /// matches its count, and it is no meta marker.
    pub open spec fn wire_ready(self) -> bool {
        &&& self.miss.len() == self.miss_count
        &&& !self.is_meta
        &&& self.meta == PacketMeta { delay_ms: 0, retry_count: 0 }
    }
}

/// The bytes of a packet on the wire.
pub open spec fn encode(p: PacketModel) -> Seq<u8> {
    be32(p.sequence) + be32(p.ack_begin) + seq![p.ack_end, flags_byte(p.flags), p.miss_count]
        + p.miss + p.payload
}

/// Whether a datagram is long enough for the header and the miss list it announces.
pub open spec fn well_framed(bytes: Seq<u8>) -> bool {
    bytes.len() >= HEADER_SIZE && bytes.len() >= HEADER_SIZE + bytes[10]
}

/// The packet that a well-framed datagram holds.
pub open spec fn decode(bytes: Seq<u8>) -> PacketModel {
    let miss_end = HEADER_SIZE + bytes[10];
    PacketModel {
        flags: flags_of(bytes[9]),
        sequence: be32_value(bytes.subrange(0, 4)) as u32,
        ack_begin: be32_value(bytes.subrange(4, 8)) as u32,
        ack_end: bytes[8],
        miss_count: bytes[10],
        miss: bytes.subrange(HEADER_SIZE as int, miss_end),
        payload: bytes.subrange(miss_end, bytes.len() as int),
        is_meta: false,
        meta: PacketMeta { delay_ms: 0, retry_count: 0 },
    }
}

/// Append all of `src` to `dst`.
fn extend_bytes(dst: &mut Vec<u8>, src: &Vec<u8>)
    ensures
        final(dst)@ == old(dst)@ + src@,
{
    let mut i: usize = 0;
    while i < src.len()
        invariant
            0 <= i <= src@.len(),
            dst@ == old(dst)@ + src@.subrange(0, i as int),
        decreases src@.len() - i,
    {
        dst.push(src[i]);
        i += 1;
        assert(dst@ =~= old(dst)@ + src@.subrange(0, i as int));
    }
    assert(src@.subrange(0, src@.len() as int) =~= src@);
}

/// The bytes `from..to` of `src`.
fn copy_range(src: &Vec<u8>, from: usize, to: usize) -> (r: Vec<u8>)
    requires
        from <= to <= src@.len(),
    ensures
        r@ == src@.subrange(from as int, to as int),
{
    let mut r: Vec<u8> = Vec::new();
    let mut i: usize = from;
    while i < to
        invariant
            from <= i <= to,
            to <= src@.len(),
            r@ == src@.subrange(from as int, i as int),
        decreases to - i,
    {
        r.push(src[i]);
        i += 1;
        assert(r@ =~= src@.subrange(from as int, i as int));
    }
    r
}

impl Packet {
    /// The model of a fresh packet of the given kind and sequence number.
    pub open spec fn new_spec(p_type: PType, sequence: u32) -> PacketModel {
        PacketModel {
            flags: PacketFlags { p_type, ack: false, enc: false },
            sequence,
            ack_begin: 0,
            ack_end: 0,
            miss_count: 0,
            miss: Seq::empty(),
            payload: Seq::empty(),
            is_meta: false,
            meta: PacketMeta { delay_ms: 0, retry_count: 0 },
        }
    }

    /// A packet of the given kind and sequence number, with no summary, no
    /// payload and no flags set.
    pub fn new(p_type: PType, sequence: u32) -> (r: Packet)
        ensures
            r@ == Packet::new_spec(p_type, sequence),
    {
        Packet {
            flags: PacketFlags { p_type, ack: false, enc: false },
            sequence,
            ack: Acknowledgement { ack_begin: 0, ack_end: 0, miss_count: 0, miss: Vec::new() },
            payload: Vec::new(),
            is_meta: false,
            meta: PacketMeta { delay_ms: 0, retry_count: 0 },
        }
    }

    /// Turn the packet into a meta marker with the given timing data.
    pub fn set_meta(&mut self, meta: PacketMeta)
        ensures
            final(self)@ == (PacketModel { is_meta: true, meta, ..old(self)@ }),
    {
        self.is_meta = true;
        self.meta = meta;
    }

    /// Attach an acknowledgement summary and set the `ack` flag.
    pub fn add_ack(&mut self, ack: Acknowledgement)
        ensures
            final(self)@ == (PacketModel {
                flags: PacketFlags { ack: true, ..old(self).flags },
                ack_begin: ack.ack_begin,
                ack_end: ack.ack_end,
                miss_count: ack.miss_count,
                miss: ack.miss@,
                ..old(self)@
            }),
    {
        self.ack = ack;
        self.flags.ack = true;
    }

    /// Set or clear the `enc` flag.
    pub fn set_enc(&mut self, enc: bool)
        ensures
            final(self)@ == (PacketModel {
                flags: PacketFlags { enc, ..old(self).flags },
                ..old(self)@
            }),
    {
        self.flags.enc = enc;
    }

    /// Append bytes to the payload.
    pub fn append_payload(&mut self, payload: Vec<u8>)
        ensures
            final(self)@ == (PacketModel { payload: old(self)@.payload + payload@, ..old(self)@ }),
    {
        extend_bytes(&mut self.payload, &payload);
    }

    /// The bytes of this packet on the wire.
    pub fn compile(&self) -> (r: Vec<u8>)
        ensures
            r@ == encode(self@),
    {
        let mut packet_vector: Vec<u8> = Vec::new();
        let slice_sequence = compile_u32(self.sequence);
        extend_bytes(&mut packet_vector, &slice_sequence);
        let slice_ack_begin = compile_u32(self.ack.ack_begin);
        extend_bytes(&mut packet_vector, &slice_ack_begin);
        packet_vector.push(self.ack.ack_end);
        packet_vector.push(self.flags.get_byte());
        packet_vector.push(self.ack.miss_count);
        extend_bytes(&mut packet_vector, &self.ack.miss);
        extend_bytes(&mut packet_vector, &self.payload);
        assert(packet_vector@ =~= encode(self@));
        packet_vector
    }

    /// Read a packet from a datagram. A datagram shorter than the header, or
    /// than the miss list that it announces, is refused with `ParseError`.
    pub fn parse(bytes: &Vec<u8>) -> (r: Result<Packet, AetherError>)
        ensures
            r is Ok <==> well_framed(bytes@),
            r matches Ok(p) ==> p@ == decode(bytes@),
            r is Err ==> r == Err::<Packet, AetherError>(AetherError::ParseError),
    {
        let len = bytes.len();
        if len < HEADER_SIZE || len < HEADER_SIZE + bytes[10] as usize {
            return Err(AetherError::ParseError);
        }
        let sequence = read_u32(bytes, 0);
        let ack_begin = read_u32(bytes, 4);
        let ack_end = bytes[8];
        let flags = PacketFlags::from_byte(bytes[9]);
        let miss_count = bytes[10];
        let miss_end = HEADER_SIZE + miss_count as usize;
        let miss = copy_range(bytes, HEADER_SIZE, miss_end);
        let payload = copy_range(bytes, miss_end, len);
        Ok(
            Packet {
                flags,
                sequence,
                ack: Acknowledgement { ack_begin, ack_end, miss_count, miss },
                payload,
                is_meta: false,
                meta: PacketMeta { delay_ms: 0, retry_count: 0 },
            },
        )
    }
}

/// Reading the flags byte of some flags gives the flags back.
pub proof fn lemma_flags_round_trip(f: PacketFlags)
    ensures
        flags_of(flags_byte(f)) == f,
{
}

/// Decoding the wire bytes of a packet that the wire format can carry gives
/// the packet back.
pub proof fn lemma_codec_round_trip(p: PacketModel)
    requires
        p.wire_ready(),
    ensures
        well_framed(encode(p)),
        decode(encode(p)) == p,
{
    let b = encode(p);
    lemma_be32_value(p.sequence);
    lemma_be32_value(p.ack_begin);
    lemma_flags_round_trip(p.flags);
    assert(b.subrange(0, 4) =~= be32(p.sequence));
    assert(b.subrange(4, 8) =~= be32(p.ack_begin));
    assert(b[8] == p.ack_end);
    assert(b[9] == flags_byte(p.flags));
    assert(b[10] == p.miss_count);
    let miss_end = HEADER_SIZE + p.miss_count;
    assert(b.subrange(HEADER_SIZE as int, miss_end) =~= p.miss);
    assert(b.subrange(miss_end, b.len() as int) =~= p.payload);
}

} // verus!
