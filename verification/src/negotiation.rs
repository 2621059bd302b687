//! Bringing a link up: the iAP1 probe, DETECT, the first SYN, the wait for
//! the SYN-ACK with its retries, and the final ACK. The owner of the
//! transport performs each action that a step asks for and reports back;
//! the order of the actions and when to give up are decided here.

use vstd::prelude::*;

use crate::error::{Iap2Error, Result};
use crate::link::{
    answers_link_sync, link_sync, next_after, plain_ack, syn_ack_refusal, Iap2Link, LinkState,
    LinkView,
};
use crate::packet::{Iap2Packet, PacketType, PacketView};
use crate::types::LinkConfig;

verus! {

/// Where a negotiation stands: the last action it asked for.
#[derive(Debug, Clone, Copy, PartialEq, Eq, Structural)]
pub enum NegotiationPhase {
    /// Nothing asked for yet.
    Start,
    /// The iAP1 probe.
    Probing,
    /// DETECT.
    DetectSent,
    /// The pause before the first SYN.
    Settling,
    /// A SYN.
    SynSent,
    /// The read of the device's answer to the SYN.
    AwaitingSynAck,
    /// The pause before the SYN goes out again.
    RetryWaiting,
    /// The final ACK.
    AckSent,
    /// The link is up.
    Established,
    /// The retries ran out.
    Failed,
}

/// What the owner of the transport reports after an action.
pub enum NegotiationEvent {
    /// The action was performed (for the probe: whatever its read gave).
    Done,
    /// The read of the answer to the SYN gave this packet, or failed with
    /// this error (a timeout, a packet that could not be parsed).
    Answer(Result<Iap2Packet>),
}

/// What negotiation asks of the owner of the transport.
pub enum NegotiationAction {
    /// Write `bytes`, then read as many bytes for at most `timeout_ms`;
    /// neither outcome is looked at.
    Probe { bytes: Vec<u8>, timeout_ms: u64 },
    /// Write this packet.
    Write(Iap2Packet),
    /// Wait this long.
    Sleep { ms: u64 },
    /// Read one packet, for at most `timeout_ms`, and report it as an
    /// `Answer`.
    ReadSynAck { timeout_ms: u64 },
    /// The link is up.
    Established,
    /// Negotiation failed with this error.
    Fail(Iap2Error),
    /// Negotiation has already ended.
    Finished,
}

/// The bytes of the iAP1 probe.
pub open spec fn iap1_probe() -> Seq<u8> {
    seq![0xFFu8, 0x55u8, 0x02u8, 0x00u8, 0xEEu8, 0x10u8]
}

/// The DETECT packet.
pub open spec fn detect_packet(p: PacketView) -> bool {
    &&& p.packet_type == PacketType::Detect
    &&& !p.has_session
    &&& p.seq == 0x10
    &&& p.ack == 0
    &&& p.session_id is None
    &&& p.payload.len() == 0
}

/// Whether the read of the answer to a SYN with sequence number `seq` gave
/// the SYN-ACK that acknowledges it.
pub open spec fn accepted(answer: Result<Iap2Packet>, seq: u8) -> bool {
    match answer {
        Ok(p) => answers_link_sync(p@, seq),
        Err(_) => false,
    }
}

/// A negotiation as the contracts speak of it.
pub struct NegotiationView {
    pub phase: NegotiationPhase,
    /// How many times the SYN was sent again.
    pub retries: u32,
    /// How many SYNs were asked for in all.
    pub syns_sent: u64,
    /// The configuration of the link being negotiated.
    pub config: LinkConfig,
}

/// The negotiation of one link.
pub struct Negotiation {
    phase: NegotiationPhase,
    retries: u32,
    syns_sent: u64,
    config: LinkConfig,
}

impl View for Negotiation {
    type V = NegotiationView;

    closed spec fn view(&self) -> NegotiationView {
        NegotiationView {
            phase: self.phase,
            retries: self.retries,
            syns_sent: self.syns_sent,
            config: self.config,
        }
    }
}

/// The iAP1 probe.
pub fn iap1_probe_bytes() -> (r: Vec<u8>)
    ensures
        r@ == iap1_probe(),
{
    let r: Vec<u8> = vec![0xFF, 0x55, 0x02, 0x00, 0xEE, 0x10];
    assert(r@ =~= iap1_probe());
    r
}

impl Negotiation {
    /// The negotiation's bookkeeping: no more retries than configured, one
    /// SYN before the first wait and one more for each retry, and failure
    /// only once every retry was spent.
    pub open spec fn wf(&self) -> bool {
        &&& self@.retries <= self@.config.max_retries
        &&& match self@.phase {
            NegotiationPhase::Start
            | NegotiationPhase::Probing
            | NegotiationPhase::DetectSent
            | NegotiationPhase::Settling => self@.syns_sent == 0 && self@.retries == 0,
            NegotiationPhase::RetryWaiting => self@.syns_sent == self@.retries,
            NegotiationPhase::Failed => self@.syns_sent == self@.retries + 1 && self@.retries
                == self@.config.max_retries,
            _ => self@.syns_sent == self@.retries + 1,
        }
    }

    /// A negotiation, not started, of a link with `link`'s configuration.
    pub fn new(link: &Iap2Link) -> (r: Negotiation)
        ensures
            r@.phase == NegotiationPhase::Start,
            r@.retries == 0,
            r@.syns_sent == 0,
            r@.config == link@.config,
            r.wf(),
    {
        let c = link.config();
        Negotiation {
            phase: NegotiationPhase::Start,
            retries: 0,
            syns_sent: 0,
            config: LinkConfig {
                max_retries: c.max_retries,
                timeout_ms: c.timeout_ms,
                detect_to_syn_delay_ms: c.detect_to_syn_delay_ms,
                syn_retry_delay_ms: c.syn_retry_delay_ms,
                iap1_probe_timeout_ms: c.iap1_probe_timeout_ms,
                initial_seq: c.initial_seq,
            },
        }
    }

    /// Where the negotiation stands.
    pub fn phase(&self) -> (r: NegotiationPhase)
        ensures
            r == self@.phase,
    {
        self.phase
    }

    /// How many times the SYN was sent again.
    pub fn retries(&self) -> (r: u32)
        ensures
            r == self@.retries,
    {
        self.retries
    }

    /// The wait for the SYN-ACK gave nothing usable: try again after a
    /// pause while retries are left, else fail with `error`.
    fn failed_wait(&mut self, error: Iap2Error) -> (r: NegotiationAction)
        requires
            old(self).wf(),
            old(self)@.phase == NegotiationPhase::AwaitingSynAck,
        ensures
            final(self).wf(),
            final(self)@.config == old(self)@.config,
            final(self)@.syns_sent == old(self)@.syns_sent,
            if old(self)@.retries >= old(self)@.config.max_retries {
                &&& final(self)@.phase == NegotiationPhase::Failed
                &&& final(self)@.retries == old(self)@.retries
                &&& r == NegotiationAction::Fail(error)
            } else {
                &&& final(self)@.phase == NegotiationPhase::RetryWaiting
                &&& final(self)@.retries == old(self)@.retries + 1
                &&& r == NegotiationAction::Sleep { ms: old(self)@.config.syn_retry_delay_ms }
            },
    {
        if self.retries >= self.config.max_retries {
            self.phase = NegotiationPhase::Failed;
            NegotiationAction::Fail(error)
        } else {
            self.retries = self.retries + 1;
            self.phase = NegotiationPhase::RetryWaiting;
            NegotiationAction::Sleep { ms: self.config.syn_retry_delay_ms }
        }
    }

    /// Takes the report of the last action and gives the next one:
    /// the iAP1 probe, DETECT, a pause, the SYN with the configured initial
    /// sequence number, then reads of the answer. A SYN-ACK that
    /// acknowledges the SYN is answered with the ACK, after which the link
    /// is established. Any other answer, or none, sends the SYN again after
    /// a pause while retries are left; once they are spent, negotiation
    /// fails with what the last wait gave.
    pub fn step(&mut self, link: &mut Iap2Link, event: NegotiationEvent) -> (r: NegotiationAction)
        requires
            old(self).wf(),
            old(link).wf(),
        ensures
            final(self).wf(),
            final(link).wf(),
            final(self)@.config == old(self)@.config,
            r is Fail ==> final(self)@.syns_sent == old(self)@.config.max_retries + 1,
            match old(self)@.phase {
                NegotiationPhase::Start => {
                    &&& final(self)@ == (NegotiationView {
                        phase: NegotiationPhase::Probing,
                        ..old(self)@
                    })
                    &&& final(link)@ == old(link)@
                    &&& r matches NegotiationAction::Probe { bytes, timeout_ms } && bytes@
                        == iap1_probe() && timeout_ms == old(self)@.config.iap1_probe_timeout_ms
                },
                NegotiationPhase::Probing => {
                    &&& final(self)@ == (NegotiationView {
                        phase: NegotiationPhase::DetectSent,
                        ..old(self)@
                    })
                    &&& final(link)@ == old(link)@
                    &&& r matches NegotiationAction::Write(p) && detect_packet(p@)
                },
                NegotiationPhase::DetectSent => {
                    &&& final(self)@ == (NegotiationView {
                        phase: NegotiationPhase::Settling,
                        ..old(self)@
                    })
                    &&& final(link)@ == old(link)@
                    &&& r == NegotiationAction::Sleep { ms: old(self)@.config.detect_to_syn_delay_ms }
                },
                NegotiationPhase::Settling => {
                    &&& final(self)@ == (NegotiationView {
                        phase: NegotiationPhase::SynSent,
                        syns_sent: 1,
                        ..old(self)@
                    })
                    &&& final(link)@ == (LinkView {
                        seq: old(link)@.config.initial_seq,
                        state: LinkState::SynSent,
                        ..old(link)@
                    })
                    &&& r matches NegotiationAction::Write(p) && link_sync(
                        p@,
                        old(link)@.config.initial_seq,
                    )
                },
                NegotiationPhase::SynSent => {
                    &&& final(self)@ == (NegotiationView {
                        phase: NegotiationPhase::AwaitingSynAck,
                        ..old(self)@
                    })
                    &&& final(link)@ == old(link)@
                    &&& r == NegotiationAction::ReadSynAck { timeout_ms: old(self)@.config.timeout_ms }
                },
                NegotiationPhase::AwaitingSynAck => match event {
                    NegotiationEvent::Done => {
                        &&& final(self)@ == old(self)@
                        &&& final(link)@ == old(link)@
                        &&& r == NegotiationAction::ReadSynAck {
                            timeout_ms: old(self)@.config.timeout_ms,
                        }
                    },
                    NegotiationEvent::Answer(answer) => if accepted(answer, old(link)@.seq) {
                        let p = answer->Ok_0;
                        &&& final(self)@ == (NegotiationView {
                            phase: NegotiationPhase::AckSent,
                            ..old(self)@
                        })
                        &&& final(link)@ == (LinkView {
                            seq: next_after(old(link)@.seq),
                            ack: p@.seq,
                            ..old(link)@
                        })
                        &&& r matches NegotiationAction::Write(a) && plain_ack(
                            a@,
                            next_after(old(link)@.seq),
                            p@.seq,
                        )
                    } else {
                        &&& final(link)@ == old(link)@
                        &&& final(self)@.syns_sent == old(self)@.syns_sent
                        &&& if old(self)@.retries >= old(self)@.config.max_retries {
                            &&& final(self)@.phase == NegotiationPhase::Failed
                            &&& final(self)@.retries == old(self)@.retries
                            &&& r matches NegotiationAction::Fail(e) && match answer {
                                Ok(p) => e is Protocol && e->Protocol_0@ == syn_ack_refusal(
                                    p@,
                                    old(link)@.seq,
                                ),
                                Err(e0) => e == e0,
                            }
                        } else {
                            &&& final(self)@.phase == NegotiationPhase::RetryWaiting
                            &&& final(self)@.retries == old(self)@.retries + 1
                            &&& r == NegotiationAction::Sleep {
                                ms: old(self)@.config.syn_retry_delay_ms,
                            }
                        }
                    },
                },
                NegotiationPhase::RetryWaiting => {
                    &&& final(self)@ == (NegotiationView {
                        phase: NegotiationPhase::SynSent,
                        syns_sent: (old(self)@.syns_sent + 1) as u64,
                        ..old(self)@
                    })
                    &&& final(link)@ == old(link)@
                    &&& r matches NegotiationAction::Write(p) && link_sync(p@, old(link)@.seq)
                },
                NegotiationPhase::AckSent => {
                    &&& final(self)@ == (NegotiationView {
                        phase: NegotiationPhase::Established,
                        ..old(self)@
                    })
                    &&& final(link)@ == (LinkView { state: LinkState::Established, ..old(link)@ })
                    &&& r is Established
                },
                NegotiationPhase::Established | NegotiationPhase::Failed => {
                    &&& final(self)@ == old(self)@
                    &&& final(link)@ == old(link)@
                    &&& r is Finished
                },
            },
    {
        match self.phase {
            NegotiationPhase::Start => {
                self.phase = NegotiationPhase::Probing;
                NegotiationAction::Probe {
                    bytes: iap1_probe_bytes(),
                    timeout_ms: self.config.iap1_probe_timeout_ms,
                }
            },
            NegotiationPhase::Probing => {
                self.phase = NegotiationPhase::DetectSent;
                NegotiationAction::Write(Iap2Packet::detect())
            },
            NegotiationPhase::DetectSent => {
                self.phase = NegotiationPhase::Settling;
                NegotiationAction::Sleep { ms: self.config.detect_to_syn_delay_ms }
            },
            NegotiationPhase::Settling => {
                let syn = link.start_link_sync();
                self.syns_sent = 1;
                self.phase = NegotiationPhase::SynSent;
                NegotiationAction::Write(syn)
            },
            NegotiationPhase::SynSent => {
                self.phase = NegotiationPhase::AwaitingSynAck;
                NegotiationAction::ReadSynAck { timeout_ms: self.config.timeout_ms }
            },
            NegotiationPhase::AwaitingSynAck => match event {
                NegotiationEvent::Done => NegotiationAction::ReadSynAck {
                    timeout_ms: self.config.timeout_ms,
                },
                NegotiationEvent::Answer(Ok(packet)) => match link.accept_syn_ack(&packet) {
                    Ok(()) => {
                        let ack = link.handshake_ack();
                        self.phase = NegotiationPhase::AckSent;
                        NegotiationAction::Write(ack)
                    },
                    Err(e) => self.failed_wait(e),
                },
                NegotiationEvent::Answer(Err(e)) => self.failed_wait(e),
            },
            NegotiationPhase::RetryWaiting => {
                let syn = link.link_sync_packet();
                self.syns_sent = self.syns_sent + 1;
                self.phase = NegotiationPhase::SynSent;
                NegotiationAction::Write(syn)
            },
            NegotiationPhase::AckSent => {
                link.set_established();
                self.phase = NegotiationPhase::Established;
                NegotiationAction::Established
            },
            NegotiationPhase::Established | NegotiationPhase::Failed => NegotiationAction::Finished,
        }
    }
}

} // verus!
