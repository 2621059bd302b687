//! External accessory sessions: which link sessions carry the accessory's
//! protocol, the transfer id that each one last used, and the datagrams
//! that go back to the device.

use vstd::prelude::*;

use std::collections::{HashMap, HashSet};

use crate::buffer::{bytes_from_vec, bytes_view};
use crate::types::SessionInfo;
use crate::wire::{be16, be16_value, push_be16, push_bytes, read_be16};
use crate::packet::slice_range;

verus! {

broadcast use vstd::std_specs::hash::group_hash_axioms;

/// The manager's state as the contracts see it.
pub struct EaView {
    /// The registered sessions, by link session id.
    pub sessions: Map<u8, SessionInfo>,
    /// The link sessions whose data is handed on to the application.
    pub channels: Set<u8>,
    /// The transfer id that each link session last used.
    pub transfer_ids: Map<u8, u16>,
    /// The protocol announced by the device and not yet bound to a link session.
    pub pending: Option<Seq<char>>,
}

/// The record of a session registered on link session `session_id`.
pub open spec fn session_record(session_id: u8) -> SessionInfo {
    SessionInfo { id: session_id, protocol_id: 1, version: 1 }
}

/// The transfer id that leads an incoming datagram: its first two bytes,
/// big-endian, or 0 for a one-byte datagram.
pub open spec fn incoming_transfer_id(payload: Seq<u8>) -> u16 {
    if payload.len() >= 2 {
        be16_value(payload[0], payload[1]) as u16
    } else {
        0
    }
}

/// The data of an incoming datagram: what follows the transfer id, or the
/// whole of a one-byte datagram.
pub open spec fn incoming_data(payload: Seq<u8>) -> Seq<u8> {
    if payload.len() >= 2 {
        payload.subrange(2, payload.len() as int)
    } else {
        payload
    }
}

/// What the application does with an incoming datagram.
pub struct EaDelivery {
    /// The protocol of a session that this datagram opened on its link
    /// session, which the application announces to its user.
    pub new_session: Option<String>,
    /// The data for the session's channel, where it has one.
    pub data: Option<Vec<u8>>,
}

/// The external accessory sessions of a connection.
pub struct EaSessionManager {
    sessions: HashMap<u8, SessionInfo>,
    session_channels: HashSet<u8>,
    transfer_ids: HashMap<u8, u16>,
    pending_ea_session: Option<String>,
}

impl View for EaSessionManager {
    type V = EaView;

    closed spec fn view(&self) -> EaView {
        EaView {
            sessions: self.sessions@,
            channels: self.session_channels@,
            transfer_ids: self.transfer_ids@,
            pending: match self.pending_ea_session {
                Some(p) => Some(p@),
                None => None,
            },
        }
    }
}

impl EaSessionManager {
    pub fn new() -> (r: Self)
        ensures
            r@.sessions == Map::<u8, SessionInfo>::empty(),
            r@.channels == Set::<u8>::empty(),
            r@.transfer_ids == Map::<u8, u16>::empty(),
            r@.pending is None,
    {
        EaSessionManager {
            sessions: HashMap::new(),
            session_channels: HashSet::new(),
            transfer_ids: HashMap::new(),
            pending_ea_session: None,
        }
    }

    /// The device started a session of `protocol`: it is bound to the link
    /// session on which its first data arrives.
    pub fn handle_session_started(&mut self, session_id: u8, protocol: String) -> (r:
        crate::error::Result<()>)
        ensures
            r is Ok,
            final(self)@.pending == Some(protocol@),
            final(self)@.sessions == old(self)@.sessions,
            final(self)@.channels == old(self)@.channels,
            final(self)@.transfer_ids == old(self)@.transfer_ids,
    {
        self.pending_ea_session = Some(protocol);
        Ok(())
    }

    /// Binds a session to a link session, replacing what was there.
    fn register_session(&mut self, session_id: u8)
        ensures
            final(self)@.sessions == old(self)@.sessions.insert(session_id, session_record(session_id)),
            final(self)@.channels == old(self)@.channels.insert(session_id),
            final(self)@.transfer_ids == old(self)@.transfer_ids,
            final(self)@.pending == old(self)@.pending,
    {
        self.sessions.insert(session_id, SessionInfo { id: session_id, protocol_id: 1, version: 1 });
        self.session_channels.insert(session_id);
    }

    /// The device stopped the session on `session_id`.
    pub fn handle_session_stopped(&mut self, session_id: u8)
        ensures
            final(self)@.sessions == old(self)@.sessions.remove(session_id),
            final(self)@.channels == old(self)@.channels.remove(session_id),
            final(self)@.transfer_ids == old(self)@.transfer_ids.remove(session_id),
            final(self)@.pending == old(self)@.pending,
    {
        self.sessions.remove(&session_id);
        self.session_channels.remove(&session_id);
        self.transfer_ids.remove(&session_id);
    }

    /// The channel of `session_id` was closed by the application: its data
    /// is no longer handed on.
    pub fn close_channel(&mut self, session_id: u8)
        ensures
            final(self)@.channels == old(self)@.channels.remove(session_id),
            final(self)@.sessions == old(self)@.sessions,
            final(self)@.transfer_ids == old(self)@.transfer_ids,
            final(self)@.pending == old(self)@.pending,
    {
        self.session_channels.remove(&session_id);
    }

    /// A datagram arrived on link session `session_id`. An empty datagram is
    /// dropped. Otherwise its transfer id is remembered; if the link session
    /// has no channel yet and a session is pending, the pending session is
    /// bound to it; and the data goes to the link session's channel, if it
    /// has one.
    pub fn handle_incoming_data(&mut self, session_id: u8, payload: &[u8]) -> (r: EaDelivery)
        ensures
            payload@.len() == 0 ==> {
                &&& final(self)@ == old(self)@
                &&& r.new_session is None
                &&& r.data is None
            },
            payload@.len() > 0 ==> {
                let opens = !old(self)@.channels.contains(session_id) && old(self)@.pending is Some;
                &&& final(self)@.transfer_ids == old(self)@.transfer_ids.insert(
                    session_id,
                    incoming_transfer_id(payload@),
                )
                &&& opens ==> {
                    &&& final(self)@.sessions == old(self)@.sessions.insert(
                        session_id,
                        session_record(session_id),
                    )
                    &&& final(self)@.channels == old(self)@.channels.insert(session_id)
                    &&& final(self)@.pending is None
                    &&& r.new_session is Some
                    &&& Some(r.new_session->0@) == old(self)@.pending
                }
                &&& !opens ==> {
                    &&& final(self)@.sessions == old(self)@.sessions
                    &&& final(self)@.channels == old(self)@.channels
                    &&& final(self)@.pending == old(self)@.pending
                    &&& r.new_session is None
                }
                &&& final(self)@.channels.contains(session_id) ==> r.data is Some && r.data->0@
                    == incoming_data(payload@)
                &&& !final(self)@.channels.contains(session_id) ==> r.data is None
            },
    {
        if payload.len() == 0 {
            return EaDelivery { new_session: None, data: None };
        }
        let transfer_id: u16;
        let data: &[u8];
        if payload.len() >= 2 {
            transfer_id = read_be16(payload[0], payload[1]);
            data = slice_range(payload, 2, payload.len());
        } else {
            transfer_id = 0;
            data = payload;
        }
        self.transfer_ids.insert(session_id, transfer_id);
        let mut new_session: Option<String> = None;
        if !self.session_channels.contains(&session_id) {
            match self.pending_ea_session.take() {
                Some(protocol) => {
                    self.register_session(session_id);
                    new_session = Some(protocol);
                },
                None => {},
            }
        }
        let delivered = if self.session_channels.contains(&session_id) {
            let mut copy: Vec<u8> = Vec::new();
            push_bytes(&mut copy, data);
            assert(copy@ =~= incoming_data(payload@));
            Some(copy)
        } else {
            None
        };
        EaDelivery { new_session, data: delivered }
    }

    /// The transfer id that link session `session_id` last used, or 0.
    pub fn transfer_id(&self, session_id: u8) -> (r: u16)
        ensures
            r == (if self@.transfer_ids.contains_key(session_id) {
                self@.transfer_ids[session_id]
            } else {
                0u16
            }),
    {
        match self.transfer_ids.get(&session_id) {
            Some(t) => *t,
            None => 0,
        }
    }

    /// The datagram that carries `data` to the session on `session_id`: the
    /// session's last transfer id, or 0 before any, then the data.
    pub fn outgoing_datagram(&self, session_id: u8, data: &[u8]) -> (r: bytes::Bytes)
        ensures
            bytes_view(r) == be16(
                (if self@.transfer_ids.contains_key(session_id) {
                    self@.transfer_ids[session_id]
                } else {
                    0u16
                }) as int,
            ) + data@,
    {
        let tx_id = self.transfer_id(session_id);
        let mut datagram: Vec<u8> = Vec::new();
        push_be16(&mut datagram, tx_id);
        push_bytes(&mut datagram, data);
        bytes_from_vec(datagram)
    }

    /// The link session ids of the registered sessions, in ascending order.
    pub fn active_sessions(&self) -> (r: Vec<u8>)
        ensures
            forall|a: int, b: int| 0 <= a < b < r@.len() ==> r@[a] < r@[b],
            forall|k: u8| self@.sessions.contains_key(k) <==> r@.contains(k),
    {
        let mut ids: Vec<u8> = Vec::new();
        let mut id: u16 = 0;
        while id < 256
            invariant
                id <= 256,
                forall|a: int, b: int| 0 <= a < b < ids@.len() ==> ids@[a] < ids@[b],
                forall|j: int| 0 <= j < ids@.len() ==> #[trigger] ids@[j] < id,
                forall|k: u8| k < id ==> (self@.sessions.contains_key(k) <==> ids@.contains(k)),
                forall|k: u8| ids@.contains(k) ==> self@.sessions.contains_key(k),
            decreases 256 - id,
        {
            let k = id as u8;
            let ghost before = ids@;
            if self.sessions.contains_key(&k) {
                ids.push(k);
                proof {
                    assert(ids@[ids@.len() - 1] == k);
                    assert forall|j: int| 0 <= j < before.len() implies ids@[j] == before[j] by {}
                    assert forall|k2: u8| ids@.contains(k2) implies self@.sessions.contains_key(k2) by {
                        if k2 != k {
                            let j = choose|j: int| 0 <= j < ids@.len() && ids@[j] == k2;
                            assert(j < before.len());
                            assert(before[j] == k2);
                            assert(before.contains(k2));
                        }
                    }
                    assert forall|k2: u8| k2 < id + 1 && self@.sessions.contains_key(k2) implies ids@.contains(k2) by {
                        if k2 == k {
                            assert(ids@[ids@.len() - 1] == k);
                        } else {
                            assert(k2 < id);
                            assert(before.contains(k2));
                            let j = choose|j: int| 0 <= j < before.len() && before[j] == k2;
                            assert(ids@[j] == k2);
                        }
                    }
                }
            } else {
                proof {
                    assert(!ids@.contains(k)) by {
                        if ids@.contains(k) {
                            let j = choose|j: int| 0 <= j < ids@.len() && ids@[j] == k;
                            assert(ids@[j] < id);
                        }
                    }
                }
            }
            id = id + 1;
        }
        ids
    }

    /// Whether a session is registered on link session `session_id`.
    pub fn has_session(&self, session_id: u8) -> (r: bool)
        ensures
            r == self@.sessions.contains_key(session_id),
    {
        self.sessions.contains_key(&session_id)
    }
}

/// A datagram written with a transfer id reads back with that transfer id
/// and that data: what the manager sends is what it reads.
pub proof fn lemma_transfer_id_reads_back(transfer_id: u16, data: Seq<u8>)
    ensures
        incoming_transfer_id(be16(transfer_id as int) + data) == transfer_id,
        incoming_data(be16(transfer_id as int) + data) == data,
{
    let d = be16(transfer_id as int) + data;
    crate::wire::lemma_be16_reads_back(transfer_id as int);
    assert(d[0] == be16(transfer_id as int)[0] && d[1] == be16(transfer_id as int)[1]);
    assert(d.subrange(2, d.len() as int) =~= data);
}

/// The datagram that answers a session carries the transfer id of the last
/// datagram that the session sent.
pub proof fn lemma_answer_carries_transfer_id(
    before: EaView,
    after: EaView,
    session_id: u8,
    payload: Seq<u8>,
    data: Seq<u8>,
)
    requires
        payload.len() > 0,
        after.transfer_ids == before.transfer_ids.insert(session_id, incoming_transfer_id(payload)),
    ensures
        incoming_transfer_id(
            be16(after.transfer_ids[session_id] as int) + data,
        ) == incoming_transfer_id(payload),
{
    lemma_transfer_id_reads_back(after.transfer_ids[session_id], data);
}

} // verus!
