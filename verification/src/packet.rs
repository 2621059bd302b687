//! iAP2 link packets: the control byte, the packet structure, and its wire
//! encoding with header and payload checksums.

use vstd::prelude::*;

use crate::buffer::{bytes_as_slice, bytes_copy_from_slice, bytes_empty, bytes_from_vec, bytes_view};
use crate::error::{Iap2Error, Result};
use crate::text::{decimal, hex_byte, owned, push_hex, push_number, push_text, with_hex, with_number};
use crate::wire::{
    be16, be16_value, checksum, checksum_of, lemma_checksum_closes, push_be16, push_bytes,
    read_be16, sum_of, wrapping_sum,
};

verus! {

pub const SYNC_BYTE: u8 = 0xFF;
pub const SOP_BYTE: u8 = 0x5A;
pub const PACKET_HEADER_SIZE: usize = 9;

/// The kind of a link packet, carried in the upper bits of the control byte.
#[derive(Debug, Clone, Copy, PartialEq, Eq, Structural)]
pub enum PacketType {
    Syn,
    SynAck,
    Ack,
    Data,
    Eak,
    Rst,
    Suspend,
    SuspendAck,
    Detect,
}

/// The control-byte code of each packet type.
pub open spec fn type_code(t: PacketType) -> u8 {
    match t {
        PacketType::Syn => 0x80,
        PacketType::SynAck => 0xC0,
        PacketType::Ack => 0x40,
        PacketType::Data => 0x00,
        PacketType::Eak => 0x60,
        PacketType::Rst => 0xA0,
        PacketType::Suspend => 0xE0,
        PacketType::SuspendAck => 0xF0,
        PacketType::Detect => 0xEE,
    }
}

/// The packet type that a control byte names: `0xEE` is DETECT, any other
/// byte is classified by its upper four bits.
pub open spec fn type_of_byte(b: u8) -> Option<PacketType> {
    if b == 0xEE {
        Some(PacketType::Detect)
    } else {
        let hi = b / 16;
        if hi == 8 {
            Some(PacketType::Syn)
        } else if hi == 12 {
            Some(PacketType::SynAck)
        } else if hi == 4 {
            Some(PacketType::Ack)
        } else if hi == 0 {
            Some(PacketType::Data)
        } else if hi == 6 {
            Some(PacketType::Eak)
        } else if hi == 10 {
            Some(PacketType::Rst)
        } else if hi == 14 {
            Some(PacketType::Suspend)
        } else if hi == 15 {
            Some(PacketType::SuspendAck)
        } else {
            None
        }
    }
}

/// Whether the session flag (bit 3) of a control byte is set.
pub open spec fn session_flag(b: u8) -> bool {
    (b / 8) % 2 == 1
}

/// The control byte for a packet type and session flag: the type code with
/// bit 3 or-ed in when the flag is set (the DETECT code already has it).
pub open spec fn control_value(t: PacketType, has_session: bool) -> u8 {
    if has_session && t != PacketType::Detect {
        (type_code(t) + 8) as u8
    } else {
        type_code(t)
    }
}

/// The name of each packet type.
pub open spec fn packet_type_name(t: PacketType) -> Seq<char> {
    match t {
        PacketType::Syn => "Syn"@,
        PacketType::SynAck => "SynAck"@,
        PacketType::Ack => "Ack"@,
        PacketType::Data => "Data"@,
        PacketType::Eak => "Eak"@,
        PacketType::Rst => "Rst"@,
        PacketType::Suspend => "Suspend"@,
        PacketType::SuspendAck => "SuspendAck"@,
        PacketType::Detect => "Detect"@,
    }
}

impl PacketType {
    /// The control-byte code of this packet type.
    pub fn code(&self) -> (r: u8)
        ensures
            r == type_code(*self),
    {
        match self {
            PacketType::Syn => 0x80,
            PacketType::SynAck => 0xC0,
            PacketType::Ack => 0x40,
            PacketType::Data => 0x00,
            PacketType::Eak => 0x60,
            PacketType::Rst => 0xA0,
            PacketType::Suspend => 0xE0,
            PacketType::SuspendAck => 0xF0,
            PacketType::Detect => 0xEE,
        }
    }

    /// The name of the packet type, as it appears in messages.
    pub fn name(&self) -> (r: &'static str)
        ensures
            r@ == packet_type_name(*self),
    {
        match self {
            PacketType::Syn => "Syn",
            PacketType::SynAck => "SynAck",
            PacketType::Ack => "Ack",
            PacketType::Data => "Data",
            PacketType::Eak => "Eak",
            PacketType::Rst => "Rst",
            PacketType::Suspend => "Suspend",
            PacketType::SuspendAck => "SuspendAck",
            PacketType::Detect => "Detect",
        }
    }

    /// Classifies a control byte; unknown upper nibbles are an invalid packet.
    pub fn from_u8(value: u8) -> (r: Result<PacketType>)
        ensures
            match r {
                Ok(t) => type_of_byte(value) == Some(t),
                Err(e) => type_of_byte(value) is None && e is InvalidPacket
                    && e->InvalidPacket_0@ == "Unknown packet type: "@ + hex_byte(value),
            },
    {
        if value == 0xEE {
            return Ok(PacketType::Detect);
        }
        let hi = value / 16;
        if hi == 8 {
            Ok(PacketType::Syn)
        } else if hi == 12 {
            Ok(PacketType::SynAck)
        } else if hi == 4 {
            Ok(PacketType::Ack)
        } else if hi == 0 {
            Ok(PacketType::Data)
        } else if hi == 6 {
            Ok(PacketType::Eak)
        } else if hi == 10 {
            Ok(PacketType::Rst)
        } else if hi == 14 {
            Ok(PacketType::Suspend)
        } else if hi == 15 {
            Ok(PacketType::SuspendAck)
        } else {
            Err(Iap2Error::InvalidPacket(with_hex("Unknown packet type: ", value)))
        }
    }
}

impl TryFrom<u8> for PacketType {
    type Error = Iap2Error;

    fn try_from(value: u8) -> (r: Result<PacketType>)
        ensures
            match r {
                Ok(t) => type_of_byte(value) == Some(t),
                Err(e) => type_of_byte(value) is None && e is InvalidPacket,
            },
    {
        PacketType::from_u8(value)
    }
}

/// The conversion is stated by the `ensures` of `try_from` itself, and
/// `obeys_try_from_spec` is false: the error carries a message that no spec
/// value here stands for, so the error below is a placeholder that nothing
/// relies on.
impl vstd::std_specs::convert::TryFromSpecImpl<u8> for PacketType {
    open spec fn obeys_try_from_spec() -> bool {
        false
    }

    open spec fn try_from_spec(v: u8) -> Result<PacketType> {
        match type_of_byte(v) {
            Some(t) => Ok(t),
            None => Err(Iap2Error::Timeout),
        }
    }
}

/// Every packet type is recovered from its own code.
pub proof fn lemma_type_code_roundtrip(t: PacketType)
    ensures
        type_of_byte(type_code(t)) == Some(t),
        type_of_byte(control_value(t, true)) == Some(t),
        type_of_byte(control_value(t, false)) == Some(t),
        session_flag(control_value(t, true)),
        t != PacketType::Detect ==> !session_flag(control_value(t, false)),
{
}

/// The control byte of a link packet: its type and whether a session
/// identifier follows.
#[derive(Debug, Clone, Copy, PartialEq, Eq, Structural)]
pub struct ControlByte {
    pub packet_type: PacketType,
    pub has_session: bool,
}

impl ControlByte {
    /// A control byte of the given type without a session.
    pub fn new(packet_type: PacketType) -> (r: ControlByte)
        ensures
            r.packet_type == packet_type,
            !r.has_session,
    {
        ControlByte { packet_type, has_session: false }
    }

    /// The wire value: the type code, with bit 3 set when a session follows.
    pub fn to_byte(&self) -> (r: u8)
        ensures
            r == control_value(self.packet_type, self.has_session),
    {
        let code = self.packet_type.code();
        if self.has_session {
            let r = code | 0x08;
            proof {
                assert(code == type_code(self.packet_type));
                assert((0x80u8 | 0x08u8) == 0x88u8) by (bit_vector);
                assert((0xC0u8 | 0x08u8) == 0xC8u8) by (bit_vector);
                assert((0x40u8 | 0x08u8) == 0x48u8) by (bit_vector);
                assert((0x00u8 | 0x08u8) == 0x08u8) by (bit_vector);
                assert((0x60u8 | 0x08u8) == 0x68u8) by (bit_vector);
                assert((0xA0u8 | 0x08u8) == 0xA8u8) by (bit_vector);
                assert((0xE0u8 | 0x08u8) == 0xE8u8) by (bit_vector);
                assert((0xF0u8 | 0x08u8) == 0xF8u8) by (bit_vector);
                assert((0xEEu8 | 0x08u8) == 0xEEu8) by (bit_vector);
            }
            r
        } else {
            code
        }
    }

    /// Reads a control byte: its type, and the session flag from bit 3.
    pub fn from_byte(byte: u8) -> (r: Result<ControlByte>)
        ensures
            match r {
                Ok(c) => type_of_byte(byte) == Some(c.packet_type) && c.has_session
                    == session_flag(byte),
                Err(e) => type_of_byte(byte) is None && e is InvalidPacket && e->InvalidPacket_0@
                    == "Unknown packet type: "@ + hex_byte(byte),
            },
    {
        let packet_type = match PacketType::from_u8(byte) {
            Ok(t) => t,
            Err(e) => {
                return Err(e);
            },
        };
        let flag = byte & 0x08;
        assert((byte & 0x08u8) != 0 <==> (byte / 8u8) % 2 == 1) by (bit_vector);
        Ok(ControlByte { packet_type, has_session: flag != 0 })
    }
}

/// Reading back a control byte gives the control byte written, except that
/// the DETECT code always reads with its session flag set.
pub proof fn lemma_control_byte_roundtrip(c: ControlByte)
    ensures
        type_of_byte(control_value(c.packet_type, c.has_session)) == Some(c.packet_type),
        session_flag(control_value(c.packet_type, c.has_session)) == (c.has_session
            || c.packet_type == PacketType::Detect),
{
    lemma_type_code_roundtrip(c.packet_type);
}

/// The abstract content of a link packet.
pub struct PacketView {
    pub packet_type: PacketType,
    pub has_session: bool,
    pub seq: u8,
    pub ack: u8,
    pub session_id: Option<u8>,
    pub payload: Seq<u8>,
}

/// A link packet.
#[derive(Clone)]
pub struct Iap2Packet {
    pub control: ControlByte,
    pub seq: u8,
    pub ack: u8,
    pub session_id: Option<u8>,
    pub payload: bytes::Bytes,
}

impl View for Iap2Packet {
    type V = PacketView;

    open spec fn view(&self) -> PacketView {
        PacketView {
            packet_type: self.control.packet_type,
            has_session: self.control.has_session,
            seq: self.seq,
            ack: self.ack,
            session_id: self.session_id,
            payload: bytes_view(self.payload),
        }
    }
}

/// The negotiation parameters that a SYN packet carries: version 1, at most
/// 5 outstanding packets, maximum packet length 0x1000, retransmission
/// timeout 0x04 0x0B, cumulative ACK timeout 0x0017, 3 retransmissions, 3
/// cumulative ACKs, and the session list (control session 0x0A, file
/// transfer session 0x0B).
pub open spec fn syn_parameters() -> Seq<u8> {
    seq![
        0x01u8, 0x05, 0x10, 0x00, 0x04, 0x0B, 0x00, 0x17, 0x03, 0x03, 0x01, 0x01, 0x02, 0x0A,
        0x00, 0x01, 0x0B, 0x02, 0x01,
    ]
}

/// The byte that stands for an optional session identifier: the identifier,
/// or zero for none.
pub open spec fn session_byte(s: Option<u8>) -> u8 {
    match s {
        Some(v) => v,
        None => 0,
    }
}

/// The length field of an encoded non-DETECT packet: header, payload and,
/// when there is a payload, its checksum byte. The payload length enters
/// truncated to 16 bits.
pub open spec fn encoded_length(p: PacketView) -> int {
    if p.payload.len() > 0 {
        9 + (p.payload.len() % 65536) as int + 1
    } else {
        9
    }
}

/// The eight header bytes that the header checksum covers.
pub open spec fn header_prefix(p: PacketView) -> Seq<u8> {
    seq![SYNC_BYTE, SOP_BYTE] + be16(encoded_length(p)) + seq![
        control_value(p.packet_type, p.has_session),
        p.seq,
        p.ack,
        session_byte(p.session_id),
    ]
}

/// The wire encoding of a packet. A DETECT packet is the six bytes
/// `FF 5A 00 06`, control byte, sequence number. Any other packet is the
/// header prefix and its checksum, then, when there is a payload, the payload
/// and its checksum.
pub open spec fn encode(p: PacketView) -> Seq<u8> {
    if p.packet_type == PacketType::Detect {
        seq![
            SYNC_BYTE,
            SOP_BYTE,
            0x00u8,
            0x06u8,
            control_value(p.packet_type, p.has_session),
            p.seq,
        ]
    } else {
        let h = header_prefix(p);
        let header = h.push(checksum(h));
        if p.payload.len() > 0 {
            header + p.payload.push(checksum(p.payload))
        } else {
            header
        }
    }
}

/// Whether the payload fits the 16-bit length field of the wire format.
pub open spec fn fits_wire(p: PacketView) -> bool {
    p.payload.len() <= 65525
}

/// Whether a packet can be encoded without its 16-bit length overflowing.
pub open spec fn encodable(p: PacketView) -> bool {
    p.packet_type == PacketType::Detect || p.payload.len() == 0 || p.payload.len() % 65536
        <= 65525
}

/// The packet that a byte string holds, read as the receiver does, or `None`
/// where the receiver rejects it.
pub open spec fn decode(d: Seq<u8>) -> Option<PacketView> {
    if d.len() < 6 {
        None
    } else if d[0] != SYNC_BYTE || d[1] != SOP_BYTE {
        None
    } else {
        let plen = be16_value(d[2], d[3]);
        if d.len() < plen {
            None
        } else {
            match type_of_byte(d[4]) {
                None => None,
                Some(t) => {
                    let hs = session_flag(d[4]);
                    if t == PacketType::Detect && plen == 6 {
                        Some(
                            PacketView {
                                packet_type: t,
                                has_session: hs,
                                seq: d[5],
                                ack: 0,
                                session_id: None,
                                payload: Seq::empty(),
                            },
                        )
                    } else if d.len() < 9 {
                        None
                    } else if sum_of(d.take(9)) % 256 != 0 {
                        None
                    } else {
                        let sid = if d[7] != 0 {
                            Some(d[7])
                        } else {
                            None
                        };
                        if plen > 9 {
                            let pd = d.subrange(9, plen);
                            if sum_of(pd) % 256 != 0 {
                                None
                            } else {
                                Some(
                                    PacketView {
                                        packet_type: t,
                                        has_session: hs,
                                        seq: d[5],
                                        ack: d[6],
                                        session_id: sid,
                                        payload: pd.drop_last(),
                                    },
                                )
                            }
                        } else {
                            Some(
                                PacketView {
                                    packet_type: t,
                                    has_session: hs,
                                    seq: d[5],
                                    ack: d[6],
                                    session_id: sid,
                                    payload: Seq::empty(),
                                },
                            )
                        }
                    }
                },
            }
        }
    }
}

/// The reason given for refusing a byte string as a packet, in the order
/// the checks are made.
pub open spec fn refusal_text(d: Seq<u8>) -> Seq<char> {
    if d.len() < 6 {
        "Packet too short: "@ + decimal(d.len()) + " bytes"@
    } else if d[0] != SYNC_BYTE || d[1] != SOP_BYTE {
        "Invalid sync/SOP bytes"@
    } else if d.len() < be16_value(d[2], d[3]) {
        "Incomplete packet: expected "@ + decimal(be16_value(d[2], d[3]) as nat) + " bytes, got "@
            + decimal(d.len())
    } else {
        match type_of_byte(d[4]) {
            None => "Unknown packet type: "@ + hex_byte(d[4]),
            Some(t) => if d.len() < 9 {
                "Packet too short for type "@ + packet_type_name(t) + ": "@ + decimal(d.len())
                    + " bytes"@
            } else if sum_of(d.take(9)) % 256 != 0 {
                "Header checksum verification failed: sum="@ + hex_byte(
                    (sum_of(d.take(9)) % 256) as u8,
                ) + " (expected 0)"@
            } else {
                "Payload checksum verification failed: sum="@ + hex_byte(
                    (sum_of(d.subrange(9, be16_value(d[2], d[3]))) % 256) as u8,
                ) + " (expected 0)"@
            },
        }
    }
}

impl Iap2Packet {
    /// A packet without session and payload.
    pub fn new(control: ControlByte, seq: u8, ack: u8) -> (r: Iap2Packet)
        ensures
            r.control == control,
            r.seq == seq,
            r.ack == ack,
            r.session_id is None,
            r@.payload.len() == 0,
    {
        Iap2Packet { control, seq, ack, session_id: None, payload: bytes_empty() }
    }

    /// The DETECT packet that opens link negotiation.
    pub fn detect() -> (r: Iap2Packet)
        ensures
            r@.packet_type == PacketType::Detect,
            !r@.has_session,
            r@.seq == 0x10,
            r@.ack == 0,
            r@.session_id is None,
            r@.payload.len() == 0,
    {
        Iap2Packet::new(ControlByte::new(PacketType::Detect), 0x10, 0x00)
    }

    /// A SYN packet with sequence number `seq`, carrying the link
    /// negotiation parameters.
    pub fn syn(seq: u8) -> (r: Iap2Packet)
        ensures
            r@.packet_type == PacketType::Syn,
            !r@.has_session,
            r@.seq == seq,
            r@.ack == 0,
            r@.session_id is None,
            r@.payload == syn_parameters(),
    {
        let mut packet = Iap2Packet::new(ControlByte::new(PacketType::Syn), seq, 0x00);
        let payload: Vec<u8> = vec![
            0x01, 0x05, 0x10, 0x00, 0x04, 0x0B, 0x00, 0x17, 0x03, 0x03, 0x01, 0x01, 0x02, 0x0A,
            0x00, 0x01, 0x0B, 0x02, 0x01,
        ];
        assert(payload@ =~= syn_parameters());
        packet.payload = bytes_from_vec(payload);
        packet
    }

    /// An ACK packet without payload.
    pub fn ack(seq: u8, ack: u8) -> (r: Iap2Packet)
        ensures
            r@.packet_type == PacketType::Ack,
            !r@.has_session,
            r@.seq == seq,
            r@.ack == ack,
            r@.session_id is None,
            r@.payload.len() == 0,
    {
        Iap2Packet::new(ControlByte::new(PacketType::Ack), seq, ack)
    }

    /// An ACK packet that names a session.
    pub fn ack_with_session(seq: u8, ack: u8, session_id: u8) -> (r: Iap2Packet)
        ensures
            r@.packet_type == PacketType::Ack,
            r@.has_session,
            r@.seq == seq,
            r@.ack == ack,
            r@.session_id == Some(session_id),
            r@.payload.len() == 0,
    {
        let mut p = Self::ack(seq, ack);
        p.control.has_session = true;
        p.session_id = Some(session_id);
        p
    }

    /// A data packet: an ACK packet that carries a session payload.
    pub fn data(seq: u8, ack: u8, session_id: u8, payload: bytes::Bytes) -> (r: Iap2Packet)
        ensures
            r@.packet_type == PacketType::Ack,
            r@.has_session,
            r@.seq == seq,
            r@.ack == ack,
            r@.session_id == Some(session_id),
            r@.payload == bytes_view(payload),
    {
        let mut control = ControlByte::new(PacketType::Ack);
        control.has_session = true;
        let mut packet = Iap2Packet::new(control, seq, ack);
        packet.session_id = Some(session_id);
        packet.payload = payload;
        packet
    }

    /// The wire encoding of the packet.
    pub fn to_bytes(&self) -> (r: bytes::Bytes)
        requires
            encodable(self@),
        ensures
            bytes_view(r) == encode(self@),
    {
        let v = self.encode_vec();
        bytes_from_vec(v)
    }

    /// The wire encoding of the packet, as a vector.
    pub fn encode_vec(&self) -> (r: Vec<u8>)
        requires
            encodable(self@),
        ensures
            r@ == encode(self@),
    {
        let mut buf: Vec<u8> = Vec::new();
        buf.push(SYNC_BYTE);
        buf.push(SOP_BYTE);
        if self.control.packet_type == PacketType::Detect {
            push_be16(&mut buf, 0x0006);
            buf.push(self.control.to_byte());
            buf.push(self.seq);
            assert(buf@ =~= encode(self@));
            return buf;
        }
        let payload = bytes_as_slice(&self.payload);
        let has_payload = payload.len() != 0;
        let plen16: u16 = (payload.len() % 65536) as u16;
        let packet_len: u16 = if has_payload {
            PACKET_HEADER_SIZE as u16 + plen16 + 1
        } else {
            PACKET_HEADER_SIZE as u16 + plen16
        };
        push_be16(&mut buf, packet_len);
        buf.push(self.control.to_byte());
        buf.push(self.seq);
        buf.push(self.ack);
        match self.session_id {
            Some(session) => buf.push(session),
            None => buf.push(0x00),
        }
        assert(buf@ =~= header_prefix(self@));
        let header_checksum = checksum_of(buf.as_slice());
        buf.push(header_checksum);
        if has_payload {
            push_bytes(&mut buf, payload);
            let payload_checksum = checksum_of(payload);
            buf.push(payload_checksum);
        }
        assert(buf@ =~= encode(self@));
        buf
    }

    /// Reads a packet from the start of `data`, checking the framing bytes,
    /// the length, the control byte and both checksums.
    pub fn from_bytes(data: &[u8]) -> (r: Result<Iap2Packet>)
        ensures
            match r {
                Ok(p) => decode(data@) == Some(p@),
                Err(e) => decode(data@) is None && e is InvalidPacket && e->InvalidPacket_0@
                    == refusal_text(data@),
            },
    {
        if data.len() < 6 {
            return Err(
                Iap2Error::InvalidPacket(
                    with_number("Packet too short: ", data.len() as u64, " bytes"),
                ),
            );
        }
        if data[0] != SYNC_BYTE || data[1] != SOP_BYTE {
            return Err(Iap2Error::InvalidPacket(owned("Invalid sync/SOP bytes")));
        }
        let packet_len = read_be16(data[2], data[3]) as usize;
        if data.len() < packet_len {
            return Err(
                Iap2Error::InvalidPacket(
                    {
                        let mut m = with_number("Incomplete packet: expected ", packet_len as u64, " bytes, got ");
                        push_number(&mut m, data.len() as u64);
                        m
                    },
                ),
            );
        }
        let control = match ControlByte::from_byte(data[4]) {
            Ok(c) => c,
            Err(e) => {
                return Err(e);
            },
        };
        if control.packet_type == PacketType::Detect && packet_len == 6 {
            return Ok(
                Iap2Packet {
                    control,
                    seq: data[5],
                    ack: 0,
                    session_id: None,
                    payload: bytes_empty(),
                },
            );
        }
        if data.len() < PACKET_HEADER_SIZE {
            return Err(
                Iap2Error::InvalidPacket(
                    {
                        let mut m = owned("Packet too short for type ");
                        push_text(&mut m, control.packet_type.name());
                        push_text(&mut m, ": ");
                        push_number(&mut m, data.len() as u64);
                        push_text(&mut m, " bytes");
                        m
                    },
                ),
            );
        }
        let seq = data[5];
        let ack = data[6];
        let session_id = if data[7] != 0 {
            Some(data[7])
        } else {
            None
        };
        let header = slice_prefix(data, 9);
        let sum = wrapping_sum(header);
        if sum != 0 {
            return Err(
                Iap2Error::InvalidPacket(
                    {
                        let mut m = with_hex("Header checksum verification failed: sum=", sum);
                        push_text(&mut m, " (expected 0)");
                        m
                    },
                ),
            );
        }
        let payload = if packet_len > PACKET_HEADER_SIZE {
            let payload_data = slice_range(data, PACKET_HEADER_SIZE, packet_len);
            let payload_sum = wrapping_sum(payload_data);
            if payload_sum != 0 {
                return Err(
                    Iap2Error::InvalidPacket(
                        {
                            let mut m = with_hex(
                                "Payload checksum verification failed: sum=",
                                payload_sum,
                            );
                            push_text(&mut m, " (expected 0)");
                            m
                        },
                    ),
                );
            }
            let body = slice_range(data, PACKET_HEADER_SIZE, packet_len - 1);
            assert(body@ =~= payload_data@.drop_last());
            bytes_copy_from_slice(body)
        } else {
            bytes_empty()
        };
        Ok(Iap2Packet { control, seq, ack, session_id, payload })
    }
}

/// The first `n` bytes of `data`.
pub fn slice_prefix(data: &[u8], n: usize) -> (r: &[u8])
    requires
        n <= data@.len(),
    ensures
        r@ == data@.take(n as int),
{
    slice_range(data, 0, n)
}

/// The bytes of `data` from `start` up to `end`.
pub fn slice_range(data: &[u8], start: usize, end: usize) -> (r: &[u8])
    requires
        start <= end <= data@.len(),
    ensures
        r@ == data@.subrange(start as int, end as int),
{
    vstd::slice::slice_subrange(data, start, end)
}

/// The header of an encoded non-DETECT packet: its prefix and checksum.
proof fn lemma_encode_header(p: PacketView)
    requires
        p.packet_type != PacketType::Detect,
        fits_wire(p),
    ensures
        encode(p).len() == encoded_length(p),
        encode(p).take(9) == header_prefix(p).push(checksum(header_prefix(p))),
        encoded_length(p) > 9 ==> encode(p).subrange(9, encoded_length(p)) == p.payload.push(
            checksum(p.payload),
        ),
        encoded_length(p) < 65536,
{
    let h = header_prefix(p);
    let header = h.push(checksum(h));
    if p.payload.len() > 0 {
        assert(encode(p).take(9) =~= header);
        assert(encode(p).subrange(9, encoded_length(p)) =~= p.payload.push(checksum(p.payload)));
    } else {
        assert(encode(p).take(9) =~= header);
    }
}

/// Encoding a packet and reading the bytes back gives the packet again. The
/// session identifier zero stands for no session on the wire, so a packet
/// that names session zero reads back without one; a DETECT packet reads
/// back with its session flag set, acknowledgement zero and nothing else.
pub proof fn lemma_encode_decode(p: PacketView)
    requires
        fits_wire(p),
    ensures
        p.packet_type != PacketType::Detect && p.session_id != Some(0u8) ==> decode(encode(p))
            == Some(p),
        p.packet_type == PacketType::Detect ==> decode(encode(p)) == Some(
            PacketView {
                packet_type: PacketType::Detect,
                has_session: true,
                seq: p.seq,
                ack: 0,
                session_id: None,
                payload: Seq::empty(),
            },
        ),
{
    lemma_type_code_roundtrip(p.packet_type);
    let d = encode(p);
    if p.packet_type == PacketType::Detect {
        assert(be16_value(d[2], d[3]) == 6);
        let q = decode(d).unwrap();
        assert(q.payload =~= Seq::<u8>::empty());
    } else {
        lemma_encode_header(p);
        let h = header_prefix(p);
        let len = encoded_length(p);
        assert(d[2] == h[2] && d[3] == h[3]);
        assert(be16_value(d[2], d[3]) == len);
        assert(d[4] == control_value(p.packet_type, p.has_session));
        lemma_checksum_closes(h);
        assert(d.take(9) == h.push(checksum(h)));
        assert(d[5] == p.seq && d[6] == p.ack && d[7] == session_byte(p.session_id));
        if len > 9 {
            lemma_checksum_closes(p.payload);
            let pd = d.subrange(9, len);
            assert(pd.drop_last() =~= p.payload);
            if p.session_id != Some(0u8) {
                let q = decode(d).unwrap();
                assert(q.payload =~= p.payload);
                assert(q.session_id == p.session_id);
            }
        } else {
            assert(p.payload.len() == 0);
            if p.session_id != Some(0u8) {
                let q = decode(d).unwrap();
                assert(q.payload =~= p.payload);
            }
        }
    }
}

/// The header of an encoded packet sums to zero modulo 256, and so does its
/// payload together with the payload checksum.
pub proof fn lemma_encode_checksums(p: PacketView)
    requires
        fits_wire(p),
        p.packet_type != PacketType::Detect,
    ensures
        sum_of(encode(p).take(9)) % 256 == 0,
        p.payload.len() > 0 ==> sum_of(encode(p).subrange(9, encode(p).len() as int)) % 256
            == 0,
{
    lemma_encode_header(p);
    lemma_checksum_closes(header_prefix(p));
    lemma_checksum_closes(p.payload);
}

/// How the summary of a packet shows its session.
pub open spec fn session_text(s: Option<u8>) -> Seq<char> {
    match s {
        Some(id) => "Some("@ + decimal(id as nat) + ")"@,
        None => "None"@,
    }
}

impl Iap2Packet {
    /// A one-line description of the packet: its type, sequence and
    /// acknowledgement numbers, session and payload length.
    pub fn summary(&self) -> (r: String)
        ensures
            r@ == "Iap2Packet { type: "@ + packet_type_name(self.control.packet_type) + ", seq: "@
                + hex_byte(self.seq) + ", ack: "@ + hex_byte(self.ack) + ", session: "@
                + session_text(self.session_id) + ", payload_len: "@ + decimal(
                bytes_view(self.payload).len(),
            ) + " }"@,
    {
        let mut s = owned("Iap2Packet { type: ");
        push_text(&mut s, self.control.packet_type.name());
        push_text(&mut s, ", seq: ");
        push_hex(&mut s, self.seq);
        push_text(&mut s, ", ack: ");
        push_hex(&mut s, self.ack);
        push_text(&mut s, ", session: ");
        match self.session_id {
            Some(id) => {
                push_text(&mut s, "Some(");
                push_number(&mut s, id as u64);
                push_text(&mut s, ")");
            },
            None => {
                push_text(&mut s, "None");
            },
        }
        push_text(&mut s, ", payload_len: ");
        push_number(&mut s, bytes_as_slice(&self.payload).len() as u64);
        push_text(&mut s, " }");
        s
    }
}

impl Iap2Packet {
    /// Whether the packet's length fields can be computed without
    /// overflowing 16 bits.
    pub fn is_encodable(&self) -> (r: bool)
        ensures
            r == encodable(self@),
    {
        let n = bytes_as_slice(&self.payload).len();
        self.control.packet_type == PacketType::Detect || n == 0 || n % 65536 <= 65525
    }
}

} // verus!
