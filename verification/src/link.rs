//! The iAP2 link layer: negotiation, sequence and acknowledgement numbers,
//! in-order delivery with a reorder buffer, and the framing of the incoming
//! byte stream. The owner of the transport performs the reads, writes and
//! timeouts; every decision is made here.

use vstd::prelude::*;

use crate::buffer::{
    bytes_as_slice, bytes_mut_advance, bytes_mut_as_slice, bytes_mut_extend, bytes_mut_view,
    bytes_mut_with_capacity, bytes_view,
};
use crate::error::{Iap2Error, Result};
use crate::packet::{decode, packet_type_name, syn_parameters, Iap2Packet, PacketType, PacketView};
use crate::text::{hex_byte, owned, push_hex, push_text, with_hex};
use crate::types::LinkConfig;
use crate::wire::{be16_value, read_be16};
use crate::packet::{slice_range};

verus! {

broadcast use {vstd::laws_cmp::group_laws_cmp, vstd::std_specs::btree::group_btree_axioms};

/// The negotiation state of a link.
#[derive(Debug, Clone, Copy, PartialEq, Eq, Structural)]
pub enum LinkState {
    Idle,
    SynSent,
    Established,
}

/// The state of a link as the contracts speak of it.
pub struct LinkView {
    pub seq: u8,
    pub ack: u8,
    pub state: LinkState,
    pub config: LinkConfig,
    pub pending: Seq<Iap2Packet>,
    pub rx_buffer: Map<u8, Iap2Packet>,
    pub read_buf: Seq<u8>,
}

/// The link state of one connection.
pub struct Iap2Link {
    seq: u8,
    ack: u8,
    state: LinkState,
    config: LinkConfig,
    pending: std::collections::VecDeque<Iap2Packet>,
    rx_buffer: std::collections::BTreeMap<u8, Iap2Packet>,
    /// Received bytes that do not yet form a complete packet.
    pub read_buf: bytes::BytesMut,
}

impl View for Iap2Link {
    type V = LinkView;

    closed spec fn view(&self) -> LinkView {
        LinkView {
            seq: self.seq,
            ack: self.ack,
            state: self.state,
            config: self.config,
            pending: self.pending@,
            rx_buffer: self.rx_buffer@,
            read_buf: bytes_mut_view(self.read_buf),
        }
    }
}

/// Every packet in the reorder buffer is stored under its own sequence number.
pub open spec fn buffer_keyed_by_seq(m: Map<u8, Iap2Packet>) -> bool {
    forall|k: u8| #[trigger] m.contains_key(k) ==> m[k].seq == k
}

/// A packet that the link hands to the sessions: a DATA or ACK packet that
/// carries a payload.
pub open spec fn session_packet(p: PacketView) -> bool {
    &&& p.packet_type == PacketType::Data || p.packet_type == PacketType::Ack
    &&& p.payload.len() > 0
}

/// Every packet in the reorder buffer is one for the sessions.
pub open spec fn buffer_holds_session_packets(m: Map<u8, Iap2Packet>) -> bool {
    forall|k: u8| #[trigger] m.contains_key(k) ==> session_packet(m[k]@)
}

/// A packet delivered in order after acknowledging `ack`: one for the
/// sessions with the next sequence number, or an ACK that repeats the
/// acknowledged one.
pub open spec fn delivered_in_order(p: PacketView, ack: u8) -> bool {
    &&& session_packet(p)
    &&& p.seq == next_after(ack) || (p.packet_type == PacketType::Ack && p.seq == ack)
}

/// The sequence number that follows `s`, modulo 256.
pub open spec fn next_after(s: u8) -> u8 {
    ((s as int + 1) % 256) as u8
}

/// Whether `a` lies in the 127 sequence numbers after `b`, modulo 256.
pub open spec fn seq_after(a: u8, b: u8) -> bool {
    let diff = (a as int - b as int + 256) % 256;
    0 < diff < 128
}

/// What the link does with a packet that it read.
pub enum Received {
    /// Hand the packet to the sessions, after writing the acknowledgement.
    Deliver { packet: Iap2Packet, reply: Iap2Packet },
    /// Write the acknowledgement and read on.
    Reply { reply: Iap2Packet },
    /// Read on.
    Ignore,
}

/// What the sender does with a packet read while it waits for its data to be
/// acknowledged.
pub struct SendStep {
    /// The packets to write, in order.
    pub writes: Vec<Iap2Packet>,
    /// Whether the data packet was acknowledged, so the wait is over.
    pub done: bool,
}

/// The bytes of a receive buffer that framing consumes, and the packet it
/// yields: bytes before a sync pair are skipped, a sync pair with an
/// implausible length is skipped, an incomplete packet waits for more bytes,
/// and a complete frame that fails to decode is dropped.
pub open spec fn scan(buf: Seq<u8>) -> (Seq<u8>, Option<PacketView>)
    decreases buf.len(),
{
    if buf.len() < 2 {
        (buf, None)
    } else if buf[0] != 0xFF || buf[1] != 0x5A {
        scan(buf.drop_first())
    } else if buf.len() < 4 {
        (buf, None)
    } else {
        let plen = be16_value(buf[2], buf[3]);
        if plen < 6 || plen > 8192 {
            scan(buf.skip(2))
        } else if buf.len() < plen {
            (buf, None)
        } else {
            match decode(buf.take(plen)) {
                Some(p) => (buf.skip(plen), Some(p)),
                None => scan(buf.skip(plen)),
            }
        }
    }
}

/// Framing only consumes bytes from the front of the buffer, and what it
/// leaves either starts a packet that is still incomplete or is too short to
/// hold a sync pair, unless it returned a packet.
#[verifier::spinoff_prover]
#[verifier::rlimit(30)]
pub proof fn lemma_scan_consumes_prefix(buf: Seq<u8>)
    ensures
        scan(buf).0.len() <= buf.len(),
        scan(buf).0 == buf.skip(buf.len() - scan(buf).0.len()),
        scan(buf).1 is None ==> scan(buf).0.len() < 2 || (scan(buf).0[0] == 0xFF
            && scan(buf).0[1] == 0x5A && (scan(buf).0.len() < 4 || (6 <= be16_value(
            scan(buf).0[2],
            scan(buf).0[3],
        ) <= 8192 && scan(buf).0.len() < be16_value(scan(buf).0[2], scan(buf).0[3])))),
    decreases buf.len(),
{
    if buf.len() < 2 {
        assert(buf.skip(0) =~= buf);
    } else if buf[0] != 0xFF || buf[1] != 0x5A {
        lemma_scan_consumes_prefix(buf.drop_first());
        let r = scan(buf.drop_first()).0;
        assert(buf.drop_first().skip(buf.drop_first().len() - r.len()) =~= buf.skip(
            buf.len() - r.len(),
        ));
    } else if buf.len() < 4 {
        assert(buf.skip(0) =~= buf);
    } else {
        let plen = be16_value(buf[2], buf[3]);
        if plen < 6 || plen > 8192 {
            lemma_scan_consumes_prefix(buf.skip(2));
            let r = scan(buf.skip(2)).0;
            assert(buf.skip(2).skip(buf.skip(2).len() - r.len()) =~= buf.skip(
                buf.len() - r.len(),
            ));
        } else if buf.len() < plen {
            assert(buf.skip(0) =~= buf);
        } else {
            match decode(buf.take(plen)) {
                Some(p) => {},
                None => {
                    lemma_scan_consumes_prefix(buf.skip(plen));
                    let r = scan(buf.skip(plen)).0;
                    assert(buf.skip(plen).skip(buf.skip(plen).len() - r.len()) =~= buf.skip(
                        buf.len() - r.len(),
                    ));
                },
            }
        }
    }
}

/// Whether `buf` holds, from position `i`, the sync bytes `FF 5A` and a
/// length field that reads `n`.
pub open spec fn is_frame_at(buf: Seq<u8>, i: int, n: int) -> bool {
    &&& 0 <= i && i + 4 <= buf.len()
    &&& buf[i] == 0xFF && buf[i + 1] == 0x5A
    &&& be16_value(buf[i + 2], buf[i + 3]) == n
}

/// Whether packet `p` is the decoding of a whole frame of `buf`, from
/// position `i` and `n` bytes long, that starts with the sync bytes, whose
/// length field is `n`, between 6 and 8192, and after which `rest` is what
/// is left.
pub open spec fn frame_of(buf: Seq<u8>, i: int, n: int, p: PacketView, rest: Seq<u8>) -> bool {
    &&& 0 <= i && 6 <= n <= 8192 && i + n <= buf.len()
    &&& is_frame_at(buf, i, n)
    &&& decode(buf.subrange(i, i + n)) == Some(p)
    &&& rest == buf.skip(i + n)
}

/// A frame found after skipping `k` bytes is a frame of the whole buffer.
proof fn lemma_frame_shift(buf: Seq<u8>, k: int, i: int, n: int, p: PacketView, rest: Seq<u8>)
    requires
        0 <= k <= buf.len(),
        frame_of(buf.skip(k), i, n, p, rest),
    ensures
        frame_of(buf, i + k, n, p, rest),
{
    let b = buf.skip(k);
    assert(b.subrange(i, i + n) =~= buf.subrange(i + k, i + k + n));
    assert(b.skip(i + n) =~= buf.skip(i + k + n));
    assert(b[i] == buf[i + k] && b[i + 1] == buf[i + k + 1]);
    assert(b[i + 2] == buf[i + k + 2] && b[i + 3] == buf[i + k + 3]);
}

/// A packet that framing yields is the decoding of a whole frame at the
/// front of what is left after skipped bytes: it starts with the sync bytes,
/// its length field is its length, between 6 and 8192.
#[verifier::spinoff_prover]
#[verifier::rlimit(30)]
pub proof fn lemma_scan_packet_is_a_frame(buf: Seq<u8>)
    ensures
        scan(buf).1 matches Some(p) ==> exists|i: int, n: int| #[trigger]
            frame_of(buf, i, n, p, scan(buf).0),
    decreases buf.len(),
{
    if buf.len() < 2 {
    } else if buf[0] != 0xFF || buf[1] != 0x5A {
        lemma_scan_packet_is_a_frame(buf.drop_first());
        if let Some(p) = scan(buf).1 {
            assert(buf.drop_first() =~= buf.skip(1));
            let (i, n) = choose|i: int, n: int| #[trigger]
                frame_of(buf.skip(1), i, n, p, scan(buf).0);
            lemma_frame_shift(buf, 1, i, n, p, scan(buf).0);
        }
    } else if buf.len() < 4 {
    } else {
        let plen = be16_value(buf[2], buf[3]);
        if plen < 6 || plen > 8192 {
            lemma_scan_packet_is_a_frame(buf.skip(2));
            if let Some(p) = scan(buf).1 {
                let (i, n) = choose|i: int, n: int| #[trigger]
                    frame_of(buf.skip(2), i, n, p, scan(buf).0);
                lemma_frame_shift(buf, 2, i, n, p, scan(buf).0);
            }
        } else if buf.len() < plen {
        } else {
            match decode(buf.take(plen)) {
                Some(p) => {
                    assert(buf.subrange(0, plen) =~= buf.take(plen));
                    assert(frame_of(buf, 0, plen, p, scan(buf).0));
                },
                None => {
                    lemma_scan_packet_is_a_frame(buf.skip(plen));
                    if let Some(p) = scan(buf).1 {
                        let (i, n) = choose|i: int, n: int| #[trigger]
                            frame_of(buf.skip(plen), i, n, p, scan(buf).0);
                        lemma_frame_shift(buf, plen, i, n, p, scan(buf).0);
                    }
                },
            }
        }
    }
}

/// The acknowledgement for a packet: an ACK that names the packet's session
/// when it carries one.
pub open spec fn ack_reply_for(reply: PacketView, seq: u8, ack: u8, session: Option<u8>) -> bool {
    &&& reply.packet_type == PacketType::Ack
    &&& reply.seq == seq
    &&& reply.ack == ack
    &&& reply.session_id == session
    &&& reply.has_session == (session is Some)
    &&& reply.payload.len() == 0
}

/// The SYN packet with sequence number `seq`, carrying the negotiation
/// parameters.
pub open spec fn link_sync(p: PacketView, seq: u8) -> bool {
    &&& p.packet_type == PacketType::Syn
    &&& !p.has_session
    &&& p.seq == seq
    &&& p.ack == 0
    &&& p.session_id is None
    &&& p.payload == syn_parameters()
}

/// Whether `p` is the SYN-ACK that answers a SYN with sequence number `seq`.
pub open spec fn answers_link_sync(p: PacketView, seq: u8) -> bool {
    p.packet_type == PacketType::SynAck && p.ack == seq
}

/// Why a packet is not the SYN-ACK that answers a SYN with sequence number
/// `seq`.
pub open spec fn syn_ack_refusal(p: PacketView, seq: u8) -> Seq<char> {
    if p.packet_type != PacketType::SynAck {
        "Expected SYN-ACK, got "@ + packet_type_name(p.packet_type)
    } else {
        "SYN-ACK has wrong ack: expected "@ + hex_byte(seq) + ", got "@ + hex_byte(p.ack)
    }
}

/// A plain ACK without session.
pub open spec fn plain_ack(reply: PacketView, seq: u8, ack: u8) -> bool {
    ack_reply_for(reply, seq, ack, None)
}

impl Iap2Link {
    /// A new, idle link.
    pub fn new(config: LinkConfig) -> (r: Iap2Link)
        ensures
            r@.seq == 0x10,
            r@.ack == 0,
            r@.state == LinkState::Idle,
            r@.config == config,
            r@.pending.len() == 0,
            r@.rx_buffer == Map::<u8, Iap2Packet>::empty(),
            r@.read_buf.len() == 0,
            r.wf(),
    {
        Iap2Link {
            seq: 0x10,
            ack: 0x00,
            state: LinkState::Idle,
            config,
            pending: std::collections::VecDeque::new(),
            rx_buffer: std::collections::BTreeMap::new(),
            read_buf: bytes_mut_with_capacity(8192),
        }
    }

    /// The link's well-formedness: the reorder buffer is keyed by sequence number.
    pub open spec fn wf(&self) -> bool {
        &&& buffer_keyed_by_seq(self@.rx_buffer)
        &&& buffer_holds_session_packets(self@.rx_buffer)
    }

    /// Whether negotiation has completed.
    pub fn is_established(&self) -> (r: bool)
        ensures
            r == (self@.state == LinkState::Established),
    {
        self.state == LinkState::Established
    }

    /// The link configuration.
    pub fn config(&self) -> (r: &LinkConfig)
        ensures
            *r == self@.config,
    {
        &self.config
    }

    /// The sequence number of the next packet the link sends.
    pub fn seq(&self) -> (r: u8)
        ensures
            r == self@.seq,
    {
        self.seq
    }

    /// The sequence number of the last packet the link acknowledged.
    pub fn ack(&self) -> (r: u8)
        ensures
            r == self@.ack,
    {
        self.ack
    }

    /// Starts the handshake: the SYN packet to send, carrying the configured
    /// initial sequence number.
    pub fn start_link_sync(&mut self) -> (r: Iap2Packet)
        requires
            old(self).wf(),
        ensures
            final(self).wf(),
            final(self)@ == (LinkView {
                seq: old(self)@.config.initial_seq,
                state: LinkState::SynSent,
                ..old(self)@
            }),
            link_sync(r@, old(self)@.config.initial_seq),
    {
        self.seq = self.config.initial_seq;
        self.state = LinkState::SynSent;
        Iap2Packet::syn(self.seq)
    }

    /// The SYN packet to send again when no SYN-ACK came.
    pub fn link_sync_packet(&self) -> (r: Iap2Packet)
        ensures
            link_sync(r@, self@.seq),
    {
        Iap2Packet::syn(self.seq)
    }

    /// Whether the handshake is tried again after `failures` unanswered SYNs.
    pub fn retry_after_failures(&self, failures: u32) -> (r: bool)
        ensures
            r == (failures <= self@.config.max_retries),
    {
        failures <= self.config.max_retries
    }

    /// Checks the device's answer to the SYN: it must be a SYN-ACK that
    /// acknowledges our sequence number. On success its sequence number
    /// becomes the one we acknowledge.
    pub fn accept_syn_ack(&mut self, packet: &Iap2Packet) -> (r: Result<()>)
        requires
            old(self).wf(),
        ensures
            final(self).wf(),
            r is Ok <==> answers_link_sync(packet@, old(self)@.seq),
            r is Ok ==> final(self)@ == (LinkView { ack: packet@.seq, ..old(self)@ }),
            r matches Err(e) ==> e is Protocol && e->Protocol_0@ == syn_ack_refusal(
                packet@,
                old(self)@.seq,
            ) && final(self)@ == old(self)@,
    {
        if packet.control.packet_type != PacketType::SynAck {
            let mut msg = owned("Expected SYN-ACK, got ");
            push_text(&mut msg, packet.control.packet_type.name());
            return Err(Iap2Error::Protocol(msg));
        }
        if packet.ack != self.seq {
            let mut msg = with_hex("SYN-ACK has wrong ack: expected ", self.seq);
            push_text(&mut msg, ", got ");
            push_hex(&mut msg, packet.ack);
            return Err(Iap2Error::Protocol(msg));
        }
        self.ack = packet.seq;
        Ok(())
    }

    /// Completes the handshake: advances our sequence number and gives the
    /// ACK to send.
    pub fn handshake_ack(&mut self) -> (r: Iap2Packet)
        requires
            old(self).wf(),
        ensures
            final(self).wf(),
            final(self)@ == (LinkView { seq: next_after(old(self)@.seq), ..old(self)@ }),
            plain_ack(r@, next_after(old(self)@.seq), old(self)@.ack),
    {
        self.seq = self.seq.wrapping_add(1);
        Iap2Packet::ack(self.seq, self.ack)
    }

    /// Marks negotiation complete, once the handshake ACK was sent.
    pub fn set_established(&mut self)
        requires
            old(self).wf(),
        ensures
            final(self).wf(),
            final(self)@ == (LinkView { state: LinkState::Established, ..old(self)@ }),
    {
        self.state = LinkState::Established;
    }

    /// Takes the oldest control message that arrived while we waited for an
    /// acknowledgement.
    pub fn take_pending(&mut self) -> (r: Option<Iap2Packet>)
        requires
            old(self).wf(),
        ensures
            final(self).wf(),
            old(self)@.pending.len() == 0 ==> r is None && final(self)@ == old(self)@,
            old(self)@.pending.len() > 0 ==> r == Some(old(self)@.pending[0]) && final(self)@
                == (LinkView { pending: old(self)@.pending.drop_first(), ..old(self)@ }),
    {
        let r = self.pending.pop_front();
        proof {
            if old(self)@.pending.len() > 0 {
                assert(self@.pending =~= old(self)@.pending.drop_first());
            }
        }
        r
    }

    /// Takes the buffered packet that comes next in sequence, if one arrived
    /// early, and gives the acknowledgement to send for it.
    pub fn take_buffered(&mut self) -> (r: Option<(Iap2Packet, Iap2Packet)>)
        requires
            old(self).wf(),
        ensures
            final(self).wf(),
            r matches Some((q, _)) ==> delivered_in_order(q@, old(self)@.ack)
                && final(self)@.ack == q.seq,
            ({
                let expected = next_after(old(self)@.ack);
                if old(self)@.rx_buffer.contains_key(expected) {
                    let p = old(self)@.rx_buffer[expected];
                    &&& r matches Some((q, reply)) && q == p && ack_reply_for(
                        reply@,
                        old(self)@.seq,
                        expected,
                        p.session_id,
                    )
                    &&& final(self)@ == (LinkView {
                        ack: expected,
                        rx_buffer: old(self)@.rx_buffer.remove(expected),
                        ..old(self)@
                    })
                } else {
                    r is None && final(self)@ == old(self)@
                }
            }),
    {
        let expected = self.ack.wrapping_add(1);
        if self.rx_buffer.is_empty() {
            proof {
                assert(!old(self)@.rx_buffer.dom().contains(expected));
            }
            return None;
        }
        match self.rx_buffer.remove(&expected) {
            Some(buffered) => {
                assert(self@.rx_buffer =~= old(self)@.rx_buffer.remove(expected));
                self.ack = buffered.seq;
                let reply = match buffered.session_id {
                    Some(s) => Iap2Packet::ack_with_session(self.seq, self.ack, s),
                    None => Iap2Packet::ack(self.seq, self.ack),
                };
                Some((buffered, reply))
            },
            None => {
                assert(self@.rx_buffer =~= old(self)@.rx_buffer);
                None
            },
        }
    }

    /// Decides what to do with a packet read from the device. A data packet
    /// with payload is delivered when it is next in sequence, buffered when
    /// it is ahead, and dropped when it is old; each is acknowledged. An ACK
    /// packet with payload is delivered when it is next in sequence or
    /// repeats the last one, buffered when it is ahead, and dropped when it
    /// is old. Anything else is ignored.
    pub fn on_packet(&mut self, packet: Iap2Packet) -> (r: Received)
        requires
            old(self).wf(),
        ensures
            final(self).wf(),
            r matches Received::Deliver { packet: q, .. } ==> delivered_in_order(q@, old(self)@.ack)
                && final(self)@.ack == q.seq,
            ({
                let old_v = old(self)@;
                let p = packet@;
                let expected = next_after(old_v.ack);
                let has_payload = p.payload.len() > 0;
                if p.packet_type == PacketType::Data && has_payload {
                    if p.seq == expected {
                        &&& r matches Received::Deliver { packet: q, reply } && q == packet
                            && plain_ack(reply@, old_v.seq, p.seq)
                        &&& final(self)@ == (LinkView { ack: p.seq, ..old_v })
                    } else if seq_after(p.seq, expected) {
                        &&& r matches Received::Reply { reply } && plain_ack(
                            reply@,
                            old_v.seq,
                            old_v.ack,
                        )
                        &&& final(self)@ == (LinkView {
                            rx_buffer: old_v.rx_buffer.insert(p.seq, packet),
                            ..old_v
                        })
                    } else {
                        &&& r matches Received::Reply { reply } && plain_ack(
                            reply@,
                            old_v.seq,
                            old_v.ack,
                        )
                        &&& final(self)@ == old_v
                    }
                } else if p.packet_type == PacketType::Ack && has_payload {
                    if p.seq == expected || p.seq == old_v.ack {
                        &&& r matches Received::Deliver { packet: q, reply } && q == packet
                            && ack_reply_for(reply@, old_v.seq, p.seq, p.session_id)
                        &&& final(self)@ == (LinkView { ack: p.seq, ..old_v })
                    } else if seq_after(p.seq, expected) {
                        &&& r is Ignore
                        &&& final(self)@ == (LinkView {
                            rx_buffer: old_v.rx_buffer.insert(p.seq, packet),
                            ..old_v
                        })
                    } else {
                        r is Ignore && final(self)@ == old_v
                    }
                } else {
                    r is Ignore && final(self)@ == old_v
                }
            }),
    {
        let has_payload = bytes_as_slice(&packet.payload).len() != 0;
        let expected = self.ack.wrapping_add(1);
        let is_data = packet.control.packet_type == PacketType::Data;
        let is_ack = packet.control.packet_type == PacketType::Ack;
        if is_data && has_payload {
            if packet.seq == expected {
                self.ack = packet.seq;
                let reply = Iap2Packet::ack(self.seq, self.ack);
                Received::Deliver { packet, reply }
            } else if Self::is_seq_after(packet.seq, expected) {
                let reply = Iap2Packet::ack(self.seq, self.ack);
                let key = packet.seq;
                self.rx_buffer.insert(key, packet);
                assert(self@.rx_buffer =~= old(self)@.rx_buffer.insert(key, packet));
                Received::Reply { reply }
            } else {
                let reply = Iap2Packet::ack(self.seq, self.ack);
                Received::Reply { reply }
            }
        } else if is_ack && has_payload {
            if packet.seq == expected || packet.seq == self.ack {
                self.ack = packet.seq;
                let reply = match packet.session_id {
                    Some(s) => Iap2Packet::ack_with_session(self.seq, self.ack, s),
                    None => Iap2Packet::ack(self.seq, self.ack),
                };
                Received::Deliver { packet, reply }
            } else if Self::is_seq_after(packet.seq, expected) {
                let key = packet.seq;
                self.rx_buffer.insert(key, packet);
                assert(self@.rx_buffer =~= old(self)@.rx_buffer.insert(key, packet));
                Received::Ignore
            } else {
                Received::Ignore
            }
        } else {
            Received::Ignore
        }
    }

    /// The data packet that carries `payload` to `session_id`; only an
    /// established link sends data.
    pub fn data_packet(&self, session_id: u8, payload: bytes::Bytes) -> (r: Result<Iap2Packet>)
        ensures
            r is Ok <==> self@.state == LinkState::Established,
            r matches Err(e) ==> e is Protocol && e->Protocol_0@ == "Link not established"@,
            r matches Ok(p) ==> p@.packet_type == PacketType::Ack && p@.has_session && p@.seq
                == self@.seq && p@.ack == self@.ack && p@.session_id == Some(session_id)
                && p@.payload == bytes_view(payload),
    {
        if self.state != LinkState::Established {
            return Err(Iap2Error::Protocol(owned("Link not established")));
        }
        Ok(Iap2Packet::data(self.seq, self.ack, session_id, payload))
    }

    /// Whether a control message with sequence number `seq` already waits.
    pub fn has_pending(&self, seq: u8) -> (r: bool)
        ensures
            r == exists|i: int| 0 <= i < self@.pending.len() && #[trigger] self@.pending[i].seq
                == seq,
    {
        let mut i: usize = 0;
        while i < self.pending.len()
            invariant
                i <= self@.pending.len(),
                forall|j: int| 0 <= j < i ==> #[trigger] self@.pending[j].seq != seq,
            decreases self@.pending.len() - i,
        {
            if self.pending[i].seq == seq {
                return true;
            }
            i = i + 1;
        }
        false
    }

    /// Decides what to do with a packet read while waiting for the device to
    /// acknowledge our data packet. An ACK is what we wait for: any payload
    /// it carries is queued once as a control message, its sequence number
    /// becomes the one we acknowledge, and the wait ends when it
    /// acknowledges our sequence number, which then advances. An EAK reports
    /// the packets the device has: when it holds our newest but misses the
    /// one after its in-order acknowledgement, that one is sent again; the
    /// EAK is then acknowledged with the next sequence number. Anything else
    /// is a protocol error.
    pub fn on_send_reply(&mut self, reply: Iap2Packet) -> (r: Result<SendStep>)
        requires
            old(self).wf(),
            reply@.packet_type == PacketType::Eak ==> old(self)@.seq != 255,
            reply@.packet_type == PacketType::Eak && reply@.payload.len() > 0
                && reply@.payload[0] == old(self)@.seq ==> old(self)@.seq != 0,
        ensures
            final(self).wf(),
            ({
                let old_v = old(self)@;
                let p = reply@;
                let has_payload = p.payload.len() > 0;
                if p.packet_type == PacketType::Ack {
                    let queued = if has_payload && !(exists|i: int|
                        0 <= i < old_v.pending.len() && #[trigger] old_v.pending[i].seq
                            == p.seq) {
                        old_v.pending.push(reply)
                    } else {
                        old_v.pending
                    };
                    match r {
                        Ok(step) => {
                            &&& step.done == (p.ack == old_v.seq)
                            &&& if p.ack == old_v.seq {
                                &&& step.writes@.len() == 0
                                &&& final(self)@ == (LinkView {
                                    seq: next_after(old_v.seq),
                                    ack: p.seq,
                                    pending: queued,
                                    ..old_v
                                })
                            } else {
                                &&& final(self)@ == (LinkView { ack: p.seq, pending: queued, ..old_v })
                                &&& has_payload ==> step.writes@.len() == 1 && plain_ack(
                                    step.writes@[0]@,
                                    old_v.seq,
                                    p.seq,
                                )
                                &&& !has_payload ==> step.writes@.len() == 0
                            }
                        },
                        Err(_) => false,
                    }
                } else if p.packet_type == PacketType::Eak {
                    let missing = has_payload && p.payload[0] == old_v.seq && p.ack + 1
                        < old_v.seq;
                    match r {
                        Ok(step) => {
                            &&& !step.done
                            &&& final(self)@ == (LinkView {
                                seq: (old_v.seq + 1) as u8,
                                ack: p.seq,
                                ..old_v
                            })
                            &&& missing ==> step.writes@.len() == 2 && plain_ack(
                                step.writes@[0]@,
                                (p.ack + 1) as u8,
                                p.seq,
                            ) && plain_ack(step.writes@[1]@, (old_v.seq + 1) as u8, p.seq)
                            &&& !missing ==> step.writes@.len() == 1 && plain_ack(
                                step.writes@[0]@,
                                (old_v.seq + 1) as u8,
                                p.seq,
                            )
                        },
                        Err(_) => false,
                    }
                } else {
                    &&& r matches Err(e) && e is Protocol
                    &&& r->Err_0->Protocol_0@ == "Expected ACK or EAK, got "@ + packet_type_name(
                        p.packet_type,
                    )
                    &&& final(self)@ == old_v
                }
            }),
    {
        let payload = bytes_as_slice(&reply.payload);
        let has_payload = payload.len() != 0;
        match reply.control.packet_type {
            PacketType::Ack => {
                let reply_seq = reply.seq;
                let reply_ack = reply.ack;
                if has_payload {
                    if !self.has_pending(reply_seq) {
                        self.pending.push_back(reply);
                    }
                }
                self.ack = reply_seq;
                let mut writes: Vec<Iap2Packet> = Vec::new();
                if reply_ack == self.seq {
                    self.seq = self.seq.wrapping_add(1);
                    Ok(SendStep { writes, done: true })
                } else {
                    if has_payload {
                        writes.push(Iap2Packet::ack(self.seq, self.ack));
                    }
                    Ok(SendStep { writes, done: false })
                }
            },
            PacketType::Eak => {
                let mut writes: Vec<Iap2Packet> = Vec::new();
                if has_payload {
                    let highest_received = payload[0];
                    let in_order_ack = reply.ack;
                    if highest_received == self.seq && in_order_ack < self.seq - 1 {
                        let missing_seq = in_order_ack + 1;
                        writes.push(Iap2Packet::ack(missing_seq, reply.seq));
                    }
                }
                self.ack = reply.seq;
                self.seq = self.next_seq();
                writes.push(Iap2Packet::ack(self.seq, self.ack));
                Ok(SendStep { writes, done: false })
            },
            _ => {
                let mut msg = owned("Expected ACK or EAK, got ");
                push_text(&mut msg, reply.control.packet_type.name());
                Err(Iap2Error::Protocol(msg))
            },
        }
    }

    /// Appends bytes read from the transport to the receive buffer, whose
    /// length must stay within `isize::MAX`.
    pub fn feed(&mut self, data: &[u8])
        requires
            old(self).wf(),
            old(self)@.read_buf.len() + data@.len() <= isize::MAX,
        ensures
            final(self).wf(),
            final(self)@ == (LinkView { read_buf: old(self)@.read_buf + data@, ..old(self)@ }),
    {
        bytes_mut_extend(&mut self.read_buf, data);
    }

    /// Takes the next complete packet out of the receive buffer, skipping
    /// bytes that do not start a plausible frame and frames that fail to
    /// decode. Gives `None` when more bytes are needed; never fails.
    pub fn try_parse_packet(&mut self) -> (r: Result<Option<Iap2Packet>>)
        requires
            old(self).wf(),
        ensures
            final(self).wf(),
            r matches Ok(o) && (match o {
                Some(p) => scan(old(self)@.read_buf).1 == Some(p@),
                None => scan(old(self)@.read_buf).1 is None,
            }),
            final(self)@ == (LinkView {
                read_buf: scan(old(self)@.read_buf).0,
                ..old(self)@
            }),
    {
        let ghost original = self@.read_buf;
        let mut start: usize = 0;
        assert(original.skip(0) =~= original);
        loop
            invariant
                self.wf(),
                self@ == (LinkView { read_buf: original, ..old(self)@ }),
                original == old(self)@.read_buf,
                start <= original.len(),
                scan(original) == scan(original.skip(start as int)),
            decreases original.len() - start,
        {
            let ghost rest = original.skip(start as int);
            let buf = bytes_mut_as_slice(&self.read_buf);
            let n = buf.len() - start;
            if n < 2 {
                proof {
                    assert(rest.len() < 2);
                    assert(scan(rest).0 == rest);
                }
                self.drop_prefix(start);
                return Ok(None);
            }
            if buf[start] != 0xFF || buf[start + 1] != 0x5A {
                proof {
                    assert(rest.drop_first() =~= original.skip(start + 1));
                }
                start = start + 1;
                continue;
            }
            proof {
                assert(rest[0] == original[start as int] && rest[1] == original[start + 1]);
            }
            if n < 4 {
                proof {
                    assert(scan(rest).0 == rest && scan(rest).1 is None);
                }
                self.drop_prefix(start);
                return Ok(None);
            }
            let packet_len = read_be16(buf[start + 2], buf[start + 3]) as usize;
            proof {
                assert(rest[2] == original[start + 2] && rest[3] == original[start + 3]);
            }
            if packet_len < 6 || packet_len > 8192 {
                proof {
                    assert(rest.skip(2) =~= original.skip(start + 2));
                }
                start = start + 2;
                continue;
            }
            if n < packet_len {
                proof {
                    assert(scan(rest).0 == rest && scan(rest).1 is None);
                }
                self.drop_prefix(start);
                return Ok(None);
            }
            let frame = slice_range(buf, start, start + packet_len);
            proof {
                assert(frame@ =~= rest.take(packet_len as int));
                assert(rest.skip(packet_len as int) =~= original.skip(start + packet_len));
            }
            let parsed = Iap2Packet::from_bytes(frame);
            start = start + packet_len;
            match parsed {
                Ok(packet) => {
                    self.drop_prefix(start);
                    return Ok(Some(packet));
                },
                Err(_) => {},
            }
        }
    }

    /// Removes the first `n` bytes of the receive buffer.
    fn drop_prefix(&mut self, n: usize)
        requires
            old(self).wf(),
            n <= old(self)@.read_buf.len(),
        ensures
            final(self).wf(),
            final(self)@ == (LinkView { read_buf: old(self)@.read_buf.skip(n as int), ..old(self)@ }),
    {
        bytes_mut_advance(&mut self.read_buf, n);
    }

    /// The sequence number after ours.
    fn next_seq(&self) -> (r: u8)
        requires
            self@.seq < 255,
        ensures
            r == self@.seq + 1,
    {
        self.seq + 1
    }

    /// Whether `seq_a` lies in the 127 sequence numbers after `seq_b`, modulo 256.
    pub fn is_seq_after(seq_a: u8, seq_b: u8) -> (r: bool)
        ensures
            r == seq_after(seq_a, seq_b),
    {
        let diff = seq_a.wrapping_sub(seq_b);
        diff > 0 && diff < 128
    }
}

impl Default for Iap2Link {
    fn default() -> (r: Self)
        ensures
            r@.seq == 0x10,
            r@.ack == 0,
            r@.state == LinkState::Idle,
            r@.pending.len() == 0,
            r@.rx_buffer == Map::<u8, Iap2Packet>::empty(),
            r@.read_buf.len() == 0,
            r@.config.max_retries == 30,
            r@.config.timeout_ms == 1500,
            r@.config.detect_to_syn_delay_ms == 100,
            r@.config.syn_retry_delay_ms == 150,
            r@.config.iap1_probe_timeout_ms == 150,
            r@.config.initial_seq == 0x9D,
            r.wf(),
    {
        Self::new(LinkConfig::default())
    }
}

/// Of two distinct sequence numbers at most one lies after the other, and
/// none lies after itself.
pub proof fn lemma_seq_after_antisymmetric(a: u8, b: u8)
    ensures
        !seq_after(a, a),
        seq_after(a, b) ==> !seq_after(b, a),
        seq_after(next_after(b), b),
{
}

} // verus!
