use bytes::Bytes;

use iap2_rs::link::{Iap2Link, Received};
use iap2_rs::negotiation::{Negotiation, NegotiationAction, NegotiationEvent, NegotiationPhase};
use iap2_rs::packet::{ControlByte, Iap2Packet, PacketType};
use iap2_rs::types::LinkConfig;
use iap2_rs::Iap2Error;

fn syn_ack(peer_seq: u8, ack_to: u8) -> Iap2Packet {
    let mut pkt = Iap2Packet::new(ControlByte::new(PacketType::SynAck), peer_seq, ack_to);
    pkt.payload = Bytes::from_static(&[
        0x01, 0x05, 0x10, 0x00, 0x04, 0x0B, 0x00, 0x17, 0x03, 0x03, 0x01, 0x01, 0x02, 0x0A,
        0x00, 0x01, 0x0B, 0x02, 0x01,
    ]);
    pkt
}

/// A DATA packet of the device on a session.
fn device_data(seq: u8, ack: u8, session_id: u8, payload: &'static [u8]) -> Iap2Packet {
    let mut pkt = Iap2Packet::new(
        ControlByte { packet_type: PacketType::Data, has_session: true },
        seq,
        ack,
    );
    pkt.session_id = Some(session_id);
    pkt.payload = Bytes::from_static(payload);
    pkt
}

/// A link past the handshake: our sequence number is 0x9E, the device's 0x01.
fn established_link() -> Iap2Link {
    let mut link = Iap2Link::new(LinkConfig::default());
    link.start_link_sync();
    link.accept_syn_ack(&syn_ack(0x01, 0x9D)).unwrap();
    link.handshake_ack();
    link.set_established();
    link
}

#[test]
fn test_try_parse_packet_empty_buffer() {
    let mut link = Iap2Link::default();
    assert!(link.try_parse_packet().unwrap().is_none());
}

#[test]
fn test_try_parse_packet_skips_non_sync() {
    let mut link = Iap2Link::default();
    link.read_buf.extend_from_slice(&[0x00, 0x01, 0x02]);
    assert!(link.try_parse_packet().unwrap().is_none());
    assert!(link.read_buf.is_empty() || link.read_buf.len() < 2);
}

#[test]
fn try_parse_packet_finds_packet_after_noise_and_keeps_the_rest() {
    let mut link = Iap2Link::default();
    let wire = Iap2Packet::ack(0x05, 0x07).to_bytes();
    link.read_buf.extend_from_slice(&[0x12, 0xFF, 0x00]);
    link.read_buf.extend_from_slice(&wire);
    link.read_buf.extend_from_slice(&[0xFF, 0x5A, 0x00]);
    let packet = link.try_parse_packet().unwrap().unwrap();
    assert_eq!(packet.control.packet_type, PacketType::Ack);
    assert_eq!(packet.seq, 0x05);
    assert_eq!(packet.ack, 0x07);
    assert_eq!(link.read_buf, vec![0xFF, 0x5A, 0x00]);
    assert!(link.try_parse_packet().unwrap().is_none());
    assert_eq!(link.read_buf, vec![0xFF, 0x5A, 0x00]);
}

#[test]
fn try_parse_packet_skips_implausible_length_and_corrupt_frame() {
    let mut link = Iap2Link::default();
    let mut corrupt = Iap2Packet::ack(0x01, 0x00).to_bytes().to_vec();
    corrupt[8] = corrupt[8].wrapping_add(1);
    link.read_buf.extend_from_slice(&[0xFF, 0x5A, 0x00, 0x02]);
    link.read_buf.extend_from_slice(&corrupt);
    link.read_buf.extend_from_slice(&Iap2Packet::detect().to_bytes());
    let packet = link.try_parse_packet().unwrap().unwrap();
    assert_eq!(packet.control.packet_type, PacketType::Detect);
    assert!(link.read_buf.is_empty());
}

#[test]
fn feed_appends_received_bytes() {
    let mut link = Iap2Link::default();
    let wire = Iap2Packet::syn(0x20).to_bytes();
    link.feed(&wire[..5]);
    assert!(link.try_parse_packet().unwrap().is_none());
    link.feed(&wire[5..]);
    let packet = link.try_parse_packet().unwrap().unwrap();
    assert_eq!(packet.control.packet_type, PacketType::Syn);
    assert_eq!(packet.seq, 0x20);
}

#[test]
fn handshake_follows_syn_with_ack() {
    let mut link = Iap2Link::new(LinkConfig::default());
    assert!(!link.is_established());
    let syn = link.start_link_sync();
    assert_eq!(syn.control.packet_type, PacketType::Syn);
    assert_eq!(syn.seq, 0x9D);
    assert!(link.accept_syn_ack(&syn_ack(0x01, 0x9D)).is_ok());
    assert_eq!(link.ack(), 0x01);
    let ack = link.handshake_ack();
    assert_eq!(ack.control.packet_type, PacketType::Ack);
    assert_eq!(ack.seq, 0x9E);
    assert_eq!(ack.ack, 0x01);
    link.set_established();
    assert!(link.is_established());
    assert_eq!(link.seq(), 0x9E);
}

#[test]
fn syn_ack_with_wrong_type_or_ack_is_refused() {
    let mut link = Iap2Link::new(LinkConfig::default());
    link.start_link_sync();
    let wrong_ack = syn_ack(0x01, 0x9C);
    match link.accept_syn_ack(&wrong_ack) {
        Err(Iap2Error::Protocol(m)) => assert_eq!(m, "SYN-ACK has wrong ack: expected 0x9D, got 0x9C"),
        other => panic!("unexpected {:?}", other),
    }
    let not_syn_ack = Iap2Packet::ack(0x01, 0x9D);
    match link.accept_syn_ack(&not_syn_ack) {
        Err(Iap2Error::Protocol(m)) => assert_eq!(m, "Expected SYN-ACK, got Ack"),
        other => panic!("unexpected {:?}", other),
    }
    assert_eq!(link.ack(), 0x00);
}

#[test]
fn retries_stop_after_the_configured_number() {
    let config = LinkConfig {
        max_retries: 2,
        timeout_ms: 50,
        detect_to_syn_delay_ms: 5,
        syn_retry_delay_ms: 5,
        iap1_probe_timeout_ms: 5,
        initial_seq: 0x10,
    };
    let link = Iap2Link::new(config);
    assert!(link.retry_after_failures(1));
    assert!(link.retry_after_failures(2));
    assert!(!link.retry_after_failures(3));
}

#[test]
fn data_before_establishment_is_a_protocol_error() {
    let link = Iap2Link::new(LinkConfig::default());
    let r = link.data_packet(0x0A, Bytes::from_static(&[1, 2, 3]));
    assert!(matches!(r, Err(Iap2Error::Protocol(_))));
}

#[test]
fn data_packet_carries_session_and_numbers() {
    let link = established_link();
    let p = link.data_packet(0x0A, Bytes::from_static(&[1, 2, 3])).unwrap();
    assert_eq!(p.control.packet_type, PacketType::Ack);
    assert!(p.control.has_session);
    assert_eq!(p.seq, 0x9E);
    assert_eq!(p.ack, 0x01);
    assert_eq!(p.session_id, Some(0x0A));
    assert_eq!(p.payload.as_ref(), &[1, 2, 3]);
}

#[test]
fn in_order_data_is_delivered_and_acknowledged() {
    let mut link = established_link();
    let payload = Bytes::from_static(&[0x40, 0x40, 0x00, 0x06, 0x1D, 0x00]);
    let pkt = Iap2Packet::data(0x02, 0x9E, 0x0A, payload.clone());
    match link.on_packet(pkt) {
        Received::Deliver { packet, reply } => {
            assert_eq!(packet.session_id, Some(0x0A));
            assert_eq!(packet.payload, payload);
            assert_eq!(reply.control.packet_type, PacketType::Ack);
            assert_eq!(reply.seq, 0x9E);
            assert_eq!(reply.ack, 0x02);
        }
        _ => panic!("expected delivery"),
    }
    assert_eq!(link.ack(), 0x02);
}

#[test]
fn out_of_order_data_waits_for_the_gap() {
    let mut link = established_link();
    match link.on_packet(device_data(0x03, 0x9E, 0x0A, &[3])) {
        Received::Reply { reply } => assert_eq!(reply.ack, 0x01),
        _ => panic!("expected a bare acknowledgement"),
    }
    assert!(link.take_buffered().is_none());
    assert!(matches!(link.on_packet(device_data(0x02, 0x9E, 0x0A, &[2])), Received::Deliver { .. }));
    let (buffered, reply) = link.take_buffered().unwrap();
    assert_eq!(buffered.seq, 0x03);
    assert_eq!(buffered.payload.as_ref(), &[3]);
    assert_eq!(reply.ack, 0x03);
    assert_eq!(reply.session_id, Some(0x0A));
    assert_eq!(link.ack(), 0x03);
}

#[test]
fn out_of_order_message_in_ack_waits_silently() {
    let mut link = established_link();
    let later = Iap2Packet::data(0x03, 0x9E, 0x0A, Bytes::from_static(&[3]));
    assert!(matches!(link.on_packet(later), Received::Ignore));
    let next = Iap2Packet::data(0x02, 0x9E, 0x0A, Bytes::from_static(&[2]));
    match link.on_packet(next) {
        Received::Deliver { packet, reply } => {
            assert_eq!(packet.seq, 0x02);
            assert_eq!(reply.session_id, Some(0x0A));
        }
        _ => panic!("expected delivery"),
    }
    assert_eq!(link.take_buffered().unwrap().0.seq, 0x03);
}

#[test]
fn duplicate_data_is_acknowledged_and_dropped() {
    let mut link = established_link();
    match link.on_packet(device_data(0x01, 0x9E, 0x0A, &[1])) {
        Received::Reply { reply } => assert_eq!(reply.ack, 0x01),
        _ => panic!("expected a bare acknowledgement"),
    }
    assert_eq!(link.ack(), 0x01);
    assert!(link.take_buffered().is_none());
}

#[test]
fn repeated_message_in_ack_is_delivered_again() {
    let mut link = established_link();
    let again = Iap2Packet::data(0x01, 0x9E, 0x0A, Bytes::from_static(&[1]));
    assert!(matches!(link.on_packet(again), Received::Deliver { .. }));
    assert_eq!(link.ack(), 0x01);
}

#[test]
fn empty_ack_is_ignored() {
    let mut link = established_link();
    assert!(matches!(link.on_packet(Iap2Packet::ack(0x02, 0x9E)), Received::Ignore));
    assert_eq!(link.ack(), 0x01);
}

#[test]
fn acknowledgement_of_our_data_ends_the_wait() {
    let mut link = established_link();
    let step = link.on_send_reply(Iap2Packet::ack(0x01, 0x9E)).unwrap();
    assert!(step.done);
    assert!(step.writes.is_empty());
    assert_eq!(link.seq(), 0x9F);
}

#[test]
fn control_message_in_ack_is_queued_once_and_answered() {
    let mut link = established_link();
    let msg = Iap2Packet::data(0x02, 0x9D, 0x0A, Bytes::from_static(&[0x40, 0x40]));
    let step = link.on_send_reply(msg.clone()).unwrap();
    assert!(!step.done);
    assert_eq!(step.writes.len(), 1);
    assert_eq!(step.writes[0].ack, 0x02);
    assert!(link.has_pending(0x02));
    link.on_send_reply(msg).unwrap();
    let queued = link.take_pending().unwrap();
    assert_eq!(queued.seq, 0x02);
    assert!(link.take_pending().is_none());
}

#[test]
fn eak_retransmits_the_missing_packet() {
    let mut link = established_link();
    let mut eak = Iap2Packet::new(ControlByte::new(PacketType::Eak), 0x05, 0x9B);
    eak.payload = Bytes::from_static(&[0x9E]);
    let step = link.on_send_reply(eak).unwrap();
    assert!(!step.done);
    assert_eq!(step.writes.len(), 2);
    assert_eq!(step.writes[0].seq, 0x9C);
    assert_eq!(step.writes[0].ack, 0x05);
    assert_eq!(step.writes[1].seq, 0x9F);
    assert_eq!(link.seq(), 0x9F);
    assert_eq!(link.ack(), 0x05);
}

#[test]
fn unexpected_reply_while_sending_is_a_protocol_error() {
    let mut link = established_link();
    match link.on_send_reply(Iap2Packet::syn(0x01)) {
        Err(Iap2Error::Protocol(m)) => assert_eq!(m, "Expected ACK or EAK, got Syn"),
        other => panic!("unexpected {:?}", other.is_ok()),
    }
    assert_eq!(link.seq(), 0x9E);
}

#[test]
fn sequence_numbers_after_wrap_around() {
    assert!(Iap2Link::is_seq_after(0x02, 0x01));
    assert!(Iap2Link::is_seq_after(0x01, 0xFF));
    assert!(!Iap2Link::is_seq_after(0x01, 0x01));
    assert!(!Iap2Link::is_seq_after(0x01, 0x02));
    assert!(!Iap2Link::is_seq_after(0x81, 0x01));
    assert!(Iap2Link::is_seq_after(0x80, 0x01));
}

#[test]
fn packet_summary_names_its_fields() {
    let p = Iap2Packet::data(0x03, 0x2A, 0x0A, Bytes::from_static(&[1, 2, 3, 4, 5, 6, 7, 8, 9, 10, 11, 12]));
    assert_eq!(
        p.summary(),
        "Iap2Packet { type: Ack, seq: 0x03, ack: 0x2A, session: Some(10), payload_len: 12 }"
    );
    assert_eq!(
        Iap2Packet::syn(0xFF).summary(),
        "Iap2Packet { type: Syn, seq: 0xFF, ack: 0x00, session: None, payload_len: 19 }"
    );
}

/// Runs a negotiation against a device whose bytes are `rx`, one chunk per
/// read: what was written, in order, and how the negotiation ended.
fn run_negotiation(link: &mut Iap2Link, rx: Vec<Vec<u8>>) -> (Vec<Vec<u8>>, Result<(), Iap2Error>) {
    let mut rx = rx.into_iter();
    let mut sent: Vec<Vec<u8>> = Vec::new();
    let mut negotiation = Negotiation::new(link);
    let mut event = NegotiationEvent::Done;
    for _ in 0..1000 {
        match negotiation.step(link, event) {
            NegotiationAction::Probe { bytes, .. } => {
                sent.push(bytes);
                let _probe_answer = rx.next();
                event = NegotiationEvent::Done;
            }
            NegotiationAction::Write(packet) => {
                sent.push(packet.to_bytes().to_vec());
                event = NegotiationEvent::Done;
            }
            NegotiationAction::Sleep { .. } => event = NegotiationEvent::Done,
            NegotiationAction::ReadSynAck { .. } => {
                let answer = loop {
                    match link.try_parse_packet() {
                        Ok(Some(p)) => break Ok(p),
                        Err(e) => break Err(e),
                        Ok(None) => match rx.next() {
                            Some(chunk) => link.feed(&chunk),
                            None => break Err(Iap2Error::Timeout),
                        },
                    }
                };
                event = NegotiationEvent::Answer(answer);
            }
            NegotiationAction::Established => return (sent, Ok(())),
            NegotiationAction::Fail(e) => return (sent, Err(e)),
            NegotiationAction::Finished => panic!("negotiation had already ended"),
        }
    }
    panic!("negotiation did not end");
}

#[test]
fn link_negotiate_detect_syn_ack() {
    let config = LinkConfig {
        max_retries: 3,
        timeout_ms: 200,
        detect_to_syn_delay_ms: 10,
        syn_retry_delay_ms: 10,
        iap1_probe_timeout_ms: 10,
        initial_seq: 0x9D,
    };
    let iap1_resp = vec![0xFF, 0x55, 0x02, 0x00, 0xEE, 0x10];
    let syn_ack_bytes = syn_ack(0x01, 0x9D).to_bytes().to_vec();

    let mut link = Iap2Link::new(config);
    let (sent, result) = run_negotiation(&mut link, vec![iap1_resp, syn_ack_bytes]);
    assert!(result.is_ok(), "negotiate failed: {:?}", result.err());
    assert!(link.is_established());

    assert!(sent.len() >= 3, "expected at least 3 sends (iAP1 probe, detect, SYN, ACK), got {}", sent.len());
    assert_eq!(&sent[0][0..2], &[0xFF, 0x55]);
    let detect = Iap2Packet::from_bytes(&sent[1]).unwrap();
    assert_eq!(detect.control.packet_type, PacketType::Detect);
    let syn = Iap2Packet::from_bytes(&sent[2]).unwrap();
    assert_eq!(syn.control.packet_type, PacketType::Syn);
    assert_eq!(syn.seq, 0x9D);
    let ack = Iap2Packet::from_bytes(&sent[3]).unwrap();
    assert_eq!(ack.control.packet_type, PacketType::Ack);
}

#[test]
fn link_negotiate_retries_on_timeout() {
    let config = LinkConfig {
        max_retries: 2,
        timeout_ms: 50,
        detect_to_syn_delay_ms: 5,
        syn_retry_delay_ms: 5,
        iap1_probe_timeout_ms: 5,
        initial_seq: 0x10,
    };
    let iap1_resp = vec![0xFF, 0x55, 0x02, 0x00, 0xEE, 0x10];

    let mut link = Iap2Link::new(config);
    let (_sent, result) = run_negotiation(&mut link, vec![iap1_resp]);
    assert!(result.is_err(), "should fail after retries exhausted");
}

#[test]
fn negotiation_writes_probe_detect_syn_and_ack_in_order() {
    let mut link = Iap2Link::new(LinkConfig { initial_seq: 0x9D, ..LinkConfig::default() });
    let (sent, result) = run_negotiation(
        &mut link,
        vec![vec![0xFF, 0x55, 0x02, 0x00, 0xEE, 0x10], syn_ack(0x01, 0x9D).to_bytes().to_vec()],
    );
    assert!(result.is_ok());
    assert_eq!(sent.len(), 4);
    assert_eq!(sent[0], vec![0xFF, 0x55, 0x02, 0x00, 0xEE, 0x10]);
    assert_eq!(sent[1], Iap2Packet::detect().to_bytes().to_vec());
    assert_eq!(sent[2], Iap2Packet::syn(0x9D).to_bytes().to_vec());
    assert_eq!(sent[3], Iap2Packet::ack(0x9E, 0x01).to_bytes().to_vec());
    assert_eq!(link.seq(), 0x9E);
    assert_eq!(link.ack(), 0x01);
}

#[test]
fn negotiation_sends_the_syn_once_more_per_retry_then_fails_without_ack() {
    let mut link = Iap2Link::new(LinkConfig {
        max_retries: 2,
        initial_seq: 0x10,
        ..LinkConfig::default()
    });
    let (sent, result) = run_negotiation(&mut link, vec![vec![0xFF, 0x55, 0x02, 0x00, 0xEE, 0x10]]);
    assert!(matches!(result, Err(Iap2Error::Timeout)));
    assert!(!link.is_established());
    let syn = Iap2Packet::syn(0x10).to_bytes().to_vec();
    assert_eq!(sent.iter().filter(|w| **w == syn).count(), 3);
    assert_eq!(sent.len(), 5);
    assert!(sent[2..].iter().all(|w| *w == syn));
}

#[test]
fn negotiation_retries_after_a_wrong_answer_and_reports_why() {
    let mut link = Iap2Link::new(LinkConfig {
        max_retries: 1,
        initial_seq: 0x20,
        ..LinkConfig::default()
    });
    let (sent, result) = run_negotiation(
        &mut link,
        vec![
            vec![0xFF, 0x55, 0x02, 0x00, 0xEE, 0x10],
            syn_ack(0x01, 0x05).to_bytes().to_vec(),
            syn_ack(0x01, 0x06).to_bytes().to_vec(),
        ],
    );
    match result {
        Err(Iap2Error::Protocol(msg)) => {
            assert_eq!(msg, "SYN-ACK has wrong ack: expected 0x20, got 0x06")
        }
        other => panic!("unexpected result {:?}", other),
    }
    assert_eq!(sent.len(), 4);
    assert!(!link.is_established());
}

#[test]
fn negotiation_after_its_end_asks_for_nothing() {
    let mut link = Iap2Link::new(LinkConfig::default());
    let mut negotiation = Negotiation::new(&link);
    assert_eq!(negotiation.phase(), NegotiationPhase::Start);
    for _ in 0..4 {
        negotiation.step(&mut link, NegotiationEvent::Done);
    }
    assert_eq!(negotiation.phase(), NegotiationPhase::SynSent);
    negotiation.step(&mut link, NegotiationEvent::Done);
    assert_eq!(negotiation.phase(), NegotiationPhase::AwaitingSynAck);
    match negotiation.step(&mut link, NegotiationEvent::Done) {
        NegotiationAction::ReadSynAck { timeout_ms } => assert_eq!(timeout_ms, LinkConfig::default().timeout_ms),
        _ => panic!("expected another read"),
    }
    let answer = syn_ack(0x01, link.seq());
    let step = negotiation.step(&mut link, NegotiationEvent::Answer(Ok(answer)));
    assert!(matches!(step, NegotiationAction::Write(_)));
    assert!(matches!(negotiation.step(&mut link, NegotiationEvent::Done), NegotiationAction::Established));
    assert!(link.is_established());
    assert!(matches!(negotiation.step(&mut link, NegotiationEvent::Done), NegotiationAction::Finished));
}
