//! Receiving files (NowPlaying artwork) over the file transfer session: the
//! datagram protocol, per-transfer state, size checks and artwork checks.
//! Times are milliseconds of a monotonic clock that the caller reads.

use vstd::prelude::*;

use std::collections::HashMap;

use crate::buffer::{bytes_from_vec, bytes_view};
use crate::error::{Iap2Error, Result};
use crate::session::jpeg::{artwork_error, lemma_sanitized_is_an_image, sanitize_artwork, sanitized};
use crate::text::{decimal, owned, push_number, push_text, with_number};
use crate::types::FileTransferConfig;
use crate::wire::{be16_value, push_bytes, read_be16};

verus! {

broadcast use vstd::std_specs::hash::group_hash_axioms;

pub const DATAGRAM_SETUP: u8 = 0x04;
pub const DATAGRAM_START: u8 = 0x01;
pub const DATAGRAM_FIRST_DATA: u8 = 0x80;
pub const DATAGRAM_DATA: u8 = 0x00;
pub const DATAGRAM_LAST_DATA: u8 = 0x40;
pub const DATAGRAM_FIRST_AND_ONLY: u8 = 0xC0;
pub const DATAGRAM_CANCEL: u8 = 0x02;
pub const DATAGRAM_PAUSE: u8 = 0x03;
pub const DATAGRAM_SUCCESS: u8 = 0x05;
pub const DATAGRAM_FAILURE: u8 = 0x06;

pub const FILE_TYPE_NOW_PLAYING_ARTWORK: u16 = 0x0002;

/// Where a transfer stands.
#[derive(Debug, Clone, Copy, PartialEq, Eq, Structural)]
pub enum TransferState {
    Setup,
    Receiving,
    Complete,
    Failed,
}

/// The name of each transfer state.
pub open spec fn transfer_state_name(s: TransferState) -> Seq<char> {
    match s {
        TransferState::Setup => "Setup"@,
        TransferState::Receiving => "Receiving"@,
        TransferState::Complete => "Complete"@,
        TransferState::Failed => "Failed"@,
    }
}

impl TransferState {
    /// The name of the state, as it appears in messages.
    pub fn name(&self) -> (r: &'static str)
        ensures
            r@ == transfer_state_name(*self),
    {
        match self {
            TransferState::Setup => "Setup",
            TransferState::Receiving => "Receiving",
            TransferState::Complete => "Complete",
            TransferState::Failed => "Failed",
        }
    }
}

/// A transfer in progress, as the contracts speak of it.
pub struct TransferView {
    pub transfer_id: u8,
    pub generation: u64,
    pub file_type: u16,
    pub file_size: u64,
    pub data: Seq<u8>,
    pub state: TransferState,
    pub bytes_received: u64,
    pub setup_ms: u64,
}

struct ActiveTransfer {
    transfer_id: u8,
    generation: u64,
    file_type: u16,
    file_size: u64,
    accumulated_data: Vec<u8>,
    state: TransferState,
    bytes_received: u64,
    setup_timestamp: u64,
}

impl View for ActiveTransfer {
    type V = TransferView;

    closed spec fn view(&self) -> TransferView {
        TransferView {
            transfer_id: self.transfer_id,
            generation: self.generation,
            file_type: self.file_type,
            file_size: self.file_size,
            data: self.accumulated_data@,
            state: self.state,
            bytes_received: self.bytes_received,
            setup_ms: self.setup_timestamp,
        }
    }
}

impl ActiveTransfer {
    fn new(transfer_id: u8, generation: u64, file_type: u16, file_size: u64, now_ms: u64) -> (r:
        ActiveTransfer)
        ensures
            r@ == (TransferView {
                transfer_id,
                generation,
                file_type,
                file_size,
                data: Seq::empty(),
                state: TransferState::Setup,
                bytes_received: 0,
                setup_ms: now_ms,
            }),
    {
        let r = ActiveTransfer {
            transfer_id,
            generation,
            file_type,
            file_size,
            accumulated_data: Vec::new(),
            state: TransferState::Setup,
            bytes_received: 0,
            setup_timestamp: now_ms,
        };
        assert(r@.data =~= Seq::<u8>::empty());
        r
    }
}

/// What a datagram led to.
#[derive(Debug)]
pub enum FileTransferOutcome {
    Pending,
    Completed { transfer_id: u8, file_type: u16, data: bytes::Bytes },
    Corrupted { transfer_id: u8, reason: String },
}

/// The outcome of a datagram, as the contracts speak of it.
pub enum OutcomeView {
    Pending,
    Completed { transfer_id: u8, file_type: u16, data: Seq<u8> },
    Corrupted { transfer_id: u8, reason: Seq<char> },
}

impl View for FileTransferOutcome {
    type V = OutcomeView;

    open spec fn view(&self) -> OutcomeView {
        match self {
            FileTransferOutcome::Pending => OutcomeView::Pending,
            FileTransferOutcome::Completed { transfer_id, file_type, data } => {
                OutcomeView::Completed {
                    transfer_id: *transfer_id,
                    file_type: *file_type,
                    data: bytes_view(*data),
                }
            },
            FileTransferOutcome::Corrupted { transfer_id, reason } => OutcomeView::Corrupted {
                transfer_id: *transfer_id,
                reason: reason@,
            },
        }
    }
}

/// The handler's state, as the contracts speak of it: the transfers in
/// progress, the generation counter, and for each recently ended transfer
/// its generation and the time it ended.
pub struct HandlerView {
    pub active: Map<u8, TransferView>,
    pub generation: u64,
    pub cancelled: Map<u8, (u64, u64)>,
    pub config: FileTransferConfig,
}

/// The file transfer state of one connection.
pub struct FileTransferHandler {
    active_transfers: HashMap<u8, ActiveTransfer>,
    generation_counter: u64,
    recently_cancelled: HashMap<u8, (u64, u64)>,
    config: FileTransferConfig,
}

impl View for FileTransferHandler {
    type V = HandlerView;

    closed spec fn view(&self) -> HandlerView {
        HandlerView {
            active: self.active_transfers@.map_values(|t: ActiveTransfer| t@),
            generation: self.generation_counter,
            cancelled: self.recently_cancelled@,
            config: self.config,
        }
    }
}

/// A handler's next state, the outcome, and the datagram to send back, if any.
pub struct StepView {
    pub state: HandlerView,
    pub outcome: OutcomeView,
    pub reply: Option<Seq<u8>>,
}

/// Nothing changes and nothing is sent.
pub open spec fn idle_step(v: HandlerView) -> StepView {
    StepView { state: v, outcome: OutcomeView::Pending, reply: None }
}

/// The reason given for a transfer in the wrong state for a datagram.
pub open spec fn wrong_state_reason(datagram: Seq<char>, state: TransferState) -> Seq<char> {
    "Invalid state for "@ + datagram + ": "@ + transfer_state_name(state)
}

/// The reason given for data beyond the announced size.
pub open spec fn oversize_reason(total: int, file_size: u64) -> Seq<char> {
    "Transfer exceeded declared size: "@ + decimal(total as nat) + " > "@ + decimal(
        file_size as nat,
    )
}

/// The reason given for a finished transfer whose size is not the announced one.
pub open spec fn size_mismatch_reason(received: int, file_size: u64) -> Seq<char> {
    "Size mismatch: received "@ + decimal(received as nat) + " bytes, expected "@ + decimal(
        file_size as nat,
    )
}

/// The transfer fails: it ends, is remembered as ended at `now`, the device
/// is told with a failure datagram, and the outcome is a corrupted transfer
/// that gives `reason`.
pub open spec fn fail_step(
    v: HandlerView,
    id: u8,
    generation: u64,
    now: u64,
    reason: Seq<char>,
) -> StepView {
    StepView {
        state: HandlerView {
            active: v.active.remove(id),
            cancelled: v.cancelled.insert(id, (generation, now)),
            ..v
        },
        outcome: OutcomeView::Corrupted { transfer_id: id, reason },
        reply: Some(seq![id, DATAGRAM_FAILURE]),
    }
}

/// The end of a transfer whose bytes are all in: their number must match
/// the announced size when one was announced, and the artwork must pass its
/// check; then the device is told of success and the kept artwork is the
/// outcome.
pub open spec fn finish_step(
    v: HandlerView,
    id: u8,
    t: TransferView,
    data: Seq<u8>,
    now: u64,
) -> StepView {
    if t.file_size > 0 && data.len() != t.file_size {
        fail_step(v, id, t.generation, now, size_mismatch_reason(data.len() as int, t.file_size))
    } else {
        match sanitized(data, t.file_size) {
            None => fail_step(v, id, t.generation, now, artwork_error(data, t.file_size)),
            Some(artwork) => StepView {
                state: HandlerView {
                    active: v.active.remove(id),
                    cancelled: v.cancelled.insert(id, (t.generation, now)),
                    ..v
                },
                outcome: OutcomeView::Completed {
                    transfer_id: id,
                    file_type: t.file_type,
                    data: artwork,
                },
                reply: Some(seq![id, DATAGRAM_SUCCESS]),
            },
        }
    }
}

/// The big-endian value of a byte string.
pub open spec fn be_value(s: Seq<u8>) -> nat
    decreases s.len(),
{
    if s.len() == 0 {
        0
    } else {
        be_value(s.drop_last()) * 256 + s.last() as nat
    }
}

/// A setup datagram: transfer id, command, 8-byte file size and 2-byte file
/// type. The transfer starts afresh: an earlier transfer under the same id
/// is remembered as ended (with its generation, or the generation of the one
/// ended before it), a new generation is drawn, and the device is told to
/// start.
pub open spec fn setup_step(v: HandlerView, payload: Seq<u8>, now: u64) -> Option<StepView> {
    if payload.len() < 12 {
        None
    } else {
        let id = payload[0];
        let file_size = be_value(payload.subrange(2, 10));
        let file_type = be16_value(payload[10], payload[11]);
        let cancelled = if v.active.contains_key(id) {
            v.cancelled.insert(id, (v.active[id].generation, now))
        } else if v.cancelled.contains_key(id) {
            v.cancelled.insert(id, (v.cancelled[id].0, now))
        } else {
            v.cancelled
        };
        let generation = (v.generation + 1) as u64;
        let t = TransferView {
            transfer_id: id,
            generation,
            file_type: file_type as u16,
            file_size: file_size as u64,
            data: Seq::empty(),
            state: TransferState::Setup,
            bytes_received: 0,
            setup_ms: now,
        };
        Some(
            StepView {
                state: HandlerView {
                    active: v.active.insert(id, t),
                    generation,
                    cancelled,
                    ..v
                },
                outcome: OutcomeView::Pending,
                reply: Some(seq![id, DATAGRAM_START]),
            },
        )
    }
}

/// A data datagram of a transfer in state `expected`: the data is added
/// unless the announced size would be exceeded; a first data datagram moves
/// the transfer to receiving.
pub open spec fn chunk_step(
    v: HandlerView,
    id: u8,
    data: Seq<u8>,
    now: u64,
    expected: TransferState,
) -> StepView {
    if !v.active.contains_key(id) {
        idle_step(v)
    } else {
        let t = v.active[id];
        let total = t.bytes_received + data.len();
        if t.state != expected {
            fail_step(
                v,
                id,
                t.generation,
                now,
                wrong_state_reason(
                    if expected == TransferState::Setup {
                        "FirstData"@
                    } else {
                        "Data"@
                    },
                    t.state,
                ),
            )
        } else if t.file_size > 0 && total > t.file_size {
            fail_step(v, id, t.generation, now, oversize_reason(total, t.file_size))
        } else {
            StepView {
                state: HandlerView {
                    active: v.active.insert(
                        id,
                        TransferView {
                            data: t.data + data,
                            bytes_received: total as u64,
                            state: TransferState::Receiving,
                            ..t
                        },
                    ),
                    ..v
                },
                outcome: OutcomeView::Pending,
                reply: None,
            }
        }
    }
}

/// The last data datagram of a transfer that is receiving: the data must
/// stay within the announced size, then the transfer is finished.
pub open spec fn last_data_step(v: HandlerView, id: u8, data: Seq<u8>, now: u64) -> StepView {
    if !v.active.contains_key(id) {
        idle_step(v)
    } else {
        let t = v.active[id];
        let total = t.bytes_received + data.len();
        if t.state != TransferState::Receiving {
            fail_step(v, id, t.generation, now, wrong_state_reason("LastData"@, t.state))
        } else if t.file_size > 0 && total > t.file_size {
            fail_step(v, id, t.generation, now, oversize_reason(total, t.file_size))
        } else {
            finish_step(v, id, t, t.data + data, now)
        }
    }
}

/// A datagram that carries a whole file: the data must stay within the
/// announced size, then the transfer is finished.
pub open spec fn only_data_step(v: HandlerView, id: u8, data: Seq<u8>, now: u64) -> StepView {
    if !v.active.contains_key(id) {
        idle_step(v)
    } else {
        let t = v.active[id];
        if t.file_size > 0 && data.len() > t.file_size {
            fail_step(v, id, t.generation, now, oversize_reason(data.len() as int, t.file_size))
        } else {
            finish_step(v, id, t, t.data + data, now)
        }
    }
}

/// The device cancels a transfer: it ends and is remembered as ended.
pub open spec fn cancel_step(v: HandlerView, id: u8, now: u64) -> StepView {
    if v.active.contains_key(id) {
        StepView {
            state: HandlerView {
                active: v.active.remove(id),
                cancelled: v.cancelled.insert(id, (v.active[id].generation, now)),
                ..v
            },
            outcome: OutcomeView::Pending,
            reply: None,
        }
    } else {
        idle_step(v)
    }
}

/// Whether a step's results are the given outcome, reply and state.
pub open spec fn step_matches(
    s: StepView,
    state: HandlerView,
    outcome: FileTransferOutcome,
    reply: Option<Vec<u8>>,
) -> bool {
    &&& state == s.state
    &&& outcome@ == s.outcome
    &&& match reply {
        Some(d) => s.reply == Some(d@),
        None => s.reply is None,
    }
}

/// The power of 256.
pub open spec fn pow256(n: nat) -> nat
    decreases n,
{
    if n == 0 {
        1
    } else {
        256 * pow256((n - 1) as nat)
    }
}

proof fn lemma_be_value_bound(s: Seq<u8>)
    ensures
        be_value(s) < pow256(s.len()),
    decreases s.len(),
{
    if s.len() > 0 {
        lemma_be_value_bound(s.drop_last());
        let x = be_value(s.drop_last());
        let p = pow256(s.drop_last().len());
        let b = s.last() as nat;
        assert(x * 256 + b < p * 256) by (nonlinear_arith)
            requires
                x < p,
                b < 256,
        ;
    }
}

/// Reads a big-endian integer of eight bytes.
fn read_be64(bytes: &[u8]) -> (r: u64)
    requires
        bytes@.len() == 8,
    ensures
        r as nat == be_value(bytes@),
{
    let mut v: u64 = 0;
    let mut i: usize = 0;
    proof {
        reveal_with_fuel(pow256, 9);
        assert(bytes@.take(0) =~= Seq::<u8>::empty());
    }
    while i < 8
        invariant
            i <= 8,
            bytes@.len() == 8,
            v as nat == be_value(bytes@.take(i as int)),
            pow256(8) == 0x1_0000_0000_0000_0000,
        decreases 8 - i,
    {
        proof {
            assert(bytes@.take(i + 1).drop_last() =~= bytes@.take(i as int));
            lemma_be_value_bound(bytes@.take(i + 1));
            lemma_pow256_monotonic((i + 1) as nat, 8);
        }
        v = v * 256 + bytes[i] as u64;
        i = i + 1;
    }
    assert(bytes@.take(8) =~= bytes@);
    v
}

proof fn lemma_pow256_monotonic(a: nat, b: nat)
    requires
        a <= b,
    ensures
        pow256(a) <= pow256(b),
    decreases b - a,
{
    if a < b {
        lemma_pow256_monotonic(a, (b - 1) as nat);
    }
}

/// What the handler does with one datagram from the device, or `None` for a
/// setup datagram that is too short.
pub open spec fn datagram_step(v: HandlerView, payload: Seq<u8>, now: u64) -> Option<StepView> {
    if payload.len() < 2 {
        Some(idle_step(v))
    } else {
        let id = payload[0];
        let command = payload[1];
        let data = payload.skip(2);
        if command == DATAGRAM_SETUP {
            setup_step(v, payload, now)
        } else if command == DATAGRAM_FIRST_DATA {
            Some(chunk_step(v, id, data, now, TransferState::Setup))
        } else if command == DATAGRAM_DATA {
            Some(chunk_step(v, id, data, now, TransferState::Receiving))
        } else if command == DATAGRAM_LAST_DATA {
            Some(last_data_step(v, id, data, now))
        } else if command == DATAGRAM_FIRST_AND_ONLY {
            Some(only_data_step(v, id, data, now))
        } else if command == DATAGRAM_CANCEL {
            Some(cancel_step(v, id, now))
        } else {
            Some(idle_step(v))
        }
    }
}

/// The state in which a transfer takes a data datagram with `command`.
pub open spec fn data_state(command: u8) -> TransferState {
    if command == DATAGRAM_FIRST_DATA {
        TransferState::Setup
    } else {
        TransferState::Receiving
    }
}

/// Whether a datagram adds data to a transfer: a first, further or last data
/// datagram of a transfer in the state that takes it.
pub open spec fn adds_data(v: HandlerView, payload: Seq<u8>) -> bool {
    &&& payload.len() >= 2
    &&& payload[1] == DATAGRAM_FIRST_DATA || payload[1] == DATAGRAM_DATA || payload[1]
        == DATAGRAM_LAST_DATA
    &&& v.active.contains_key(payload[0])
    &&& v.active[payload[0]].state == data_state(payload[1])
}

/// The counters that a datagram advances stay within 64 bits: the generation
/// counter on setup, and the byte count of a transfer that takes data.
pub open spec fn datagram_fits(v: HandlerView, payload: Seq<u8>) -> bool {
    &&& payload.len() >= 2 && payload[1] == DATAGRAM_SETUP ==> v.generation < u64::MAX
    &&& adds_data(v, payload) ==> v.active[payload[0]].bytes_received + (payload.len() - 2)
        <= u64::MAX
}

/// Milliseconds from `then` to `now`, or zero when `then` is later.
pub open spec fn elapsed(now: u64, then: u64) -> int {
    if now >= then {
        now - then
    } else {
        0
    }
}

/// Whether a transfer set up at `setup_ms` has run out of time at `now`.
pub open spec fn expired(c: FileTransferConfig, setup_ms: u64, now: u64) -> bool {
    elapsed(now, setup_ms) >= c.transfer_timeout_secs * 1000
}

/// Whether an ended transfer is still remembered at `now`: for twice the
/// grace period after it ended.
pub open spec fn still_remembered(c: FileTransferConfig, ended_ms: u64, now: u64) -> bool {
    elapsed(now, ended_ms) < 2 * c.stale_packet_grace_ms
}

/// Whether transfer `k` is in progress and has run out of time at `now`.
pub open spec fn expired_at(v: HandlerView, k: u8, now: u64) -> bool {
    v.active.contains_key(k) && expired(v.config, v.active[k].setup_ms, now)
}

/// How many of the transfer ids below `n` are expired at `now`.
pub open spec fn expired_count(v: HandlerView, now: u64, n: int) -> nat
    decreases n,
{
    if n <= 0 {
        0
    } else if expired_at(v, (n - 1) as u8, now) {
        expired_count(v, now, n - 1) + 1
    } else {
        expired_count(v, now, n - 1)
    }
}

proof fn lemma_expired_count_grows(v: HandlerView, now: u64, a: int, b: int)
    requires
        0 <= a <= b,
    ensures
        expired_count(v, now, a) <= expired_count(v, now, b),
    decreases b - a,
{
    if a < b {
        lemma_expired_count_grows(v, now, a, b - 1);
    }
}

/// Whether the generation counter can count every transfer that expires at
/// `now`.
pub open spec fn cleanup_fits(v: HandlerView, now: u64) -> bool {
    v.generation + expired_count(v, now, 256) <= u64::MAX
}

impl FileTransferHandler {
    /// A handler with no transfers.
    pub fn new(config: FileTransferConfig) -> (r: FileTransferHandler)
        ensures
            r@.active == Map::<u8, TransferView>::empty(),
            r@.generation == 0,
            r@.cancelled == Map::<u8, (u64, u64)>::empty(),
            r@.config == config,
    {
        let r = FileTransferHandler {
            active_transfers: HashMap::new(),
            generation_counter: 0,
            recently_cancelled: HashMap::new(),
            config,
        };
        assert(r@.active =~= Map::<u8, TransferView>::empty());
        r
    }

    /// The generation counter.
    pub fn generation(&self) -> (r: u64)
        ensures
            r == self@.generation,
    {
        self.generation_counter
    }

    /// The number of transfers in progress.
    pub fn active_count(&self) -> (r: usize)
        ensures
            r == self@.active.len(),
    {
        let r = self.active_transfers.len();
        assert(self@.active.dom() =~= self.active_transfers@.dom());
        r
    }

    /// Whether handling `payload` keeps the generation counter and the
    /// received byte count of its transfer within 64 bits.
    pub fn datagram_fits(&self, payload: &[u8]) -> (r: bool)
        ensures
            r == datagram_fits(self@, payload@),
    {
        if payload.len() < 2 {
            return true;
        }
        let command = payload[1];
        if command == DATAGRAM_SETUP {
            return self.generation_counter < u64::MAX;
        }
        if command != DATAGRAM_FIRST_DATA && command != DATAGRAM_DATA && command
            != DATAGRAM_LAST_DATA {
            return true;
        }
        let wanted = if command == DATAGRAM_FIRST_DATA {
            TransferState::Setup
        } else {
            TransferState::Receiving
        };
        match self.active_transfers.get(&payload[0]) {
            Some(t) => {
                if t.state != wanted {
                    true
                } else {
                    t.bytes_received as u128 + (payload.len() - 2) as u128 <= u64::MAX as u128
                }
            },
            None => true,
        }
    }

    fn removed(&mut self, id: u8) -> (r: Option<ActiveTransfer>)
        ensures
            final(self)@ == (HandlerView { active: old(self)@.active.remove(id), ..old(self)@ }),
            match r {
                Some(t) => old(self)@.active.contains_key(id) && t@ == old(self)@.active[id],
                None => !old(self)@.active.contains_key(id),
            },
    {
        let r = self.active_transfers.remove(&id);
        assert(self@.active =~= old(self)@.active.remove(id));
        r
    }

    fn remember_ended(&mut self, id: u8, generation: u64, now_ms: u64)
        ensures
            final(self)@ == (HandlerView {
                cancelled: old(self)@.cancelled.insert(id, (generation, now_ms)),
                ..old(self)@
            }),
    {
        self.recently_cancelled.insert(id, (generation, now_ms));
    }

    fn fail(&mut self, id: u8, generation: u64, now_ms: u64, reason: String) -> (r: (
        FileTransferOutcome,
        Option<Vec<u8>>,
    ))
        ensures
            ({
                let s = fail_step(old(self)@, id, generation, now_ms, reason@);
                &&& final(self)@ == s.state
                &&& r.0@ == s.outcome
                &&& r.1 matches Some(d) && s.reply == Some(d@)
            }),
    {
        let _ = self.removed(id);
        self.remember_ended(id, generation, now_ms);
        let reply = vec![id, DATAGRAM_FAILURE];
        assert(reply@ =~= seq![id, DATAGRAM_FAILURE]);
        (FileTransferOutcome::Corrupted { transfer_id: id, reason }, Some(reply))
    }

    /// Ends a removed transfer whose bytes are all in `t`.
    fn finish(&mut self, id: u8, t: ActiveTransfer, now_ms: u64) -> (r: (
        FileTransferOutcome,
        Option<Vec<u8>>,
    ))
        requires
            !old(self)@.active.contains_key(id),
        ensures
            ({
                let s = finish_step(old(self)@, id, t@, t@.data, now_ms);
                &&& final(self)@ == s.state
                &&& r.0@ == s.outcome
                &&& r.1 matches Some(d) && s.reply == Some(d@)
            }),
    {
        let mut t = t;
        let total_size = t.accumulated_data.len();
        let file_type = t.file_type;
        let generation = t.generation;
        let ghost v = old(self)@;
        proof {
            assert(v.active.remove(id) =~= v.active);
        }
        if t.file_size > 0 && total_size as u64 != t.file_size {
            let mut reason = with_number("Size mismatch: received ", total_size as u64, " bytes, expected ");
            push_number(&mut reason, t.file_size);
            return self.fail(id, generation, now_ms, reason);
        }
        match sanitize_artwork(&mut t.accumulated_data, t.file_size) {
            Ok(()) => {},
            Err(reason) => {
                return self.fail(id, generation, now_ms, reason);
            },
        }
        self.remember_ended(id, generation, now_ms);
        let reply = vec![id, DATAGRAM_SUCCESS];
        assert(reply@ =~= seq![id, DATAGRAM_SUCCESS]);
        let data = bytes_from_vec(t.accumulated_data);
        (FileTransferOutcome::Completed { transfer_id: id, file_type, data }, Some(reply))
    }

    /// Stores a transfer under its id.
    fn put(&mut self, id: u8, t: ActiveTransfer)
        ensures
            final(self)@ == (HandlerView { active: old(self)@.active.insert(id, t@), ..old(self)@ }),
    {
        self.active_transfers.insert(id, t);
        assert(self@.active =~= old(self)@.active.insert(id, t@));
    }

    fn handle_setup(&mut self, payload: &[u8], now_ms: u64) -> (r: Result<
        (FileTransferOutcome, Option<Vec<u8>>),
    >)
        requires
            payload@.len() >= 2,
            old(self)@.generation < u64::MAX,
        ensures
            match r {
                Ok((outcome, reply)) => setup_step(old(self)@, payload@, now_ms) matches Some(s)
                    && step_matches(s, final(self)@, outcome, reply),
                Err(e) => setup_step(old(self)@, payload@, now_ms) is None && e is Protocol
                    && e->Protocol_0@ == "Setup datagram too short: "@ + decimal(payload@.len())
                    + " bytes"@ && final(self)@ == old(self)@,
            },
    {
        if payload.len() < 12 {
            return Err(
                Iap2Error::Protocol(
                    with_number("Setup datagram too short: ", payload.len() as u64, " bytes"),
                ),
            );
        }
        let transfer_id = payload[0];
        let file_size = read_be64(crate::packet::slice_range(payload, 2, 10));
        let file_type = read_be16(payload[10], payload[11]);
        let ghost v = old(self)@;
        let old_gen = match self.removed(transfer_id) {
            Some(t) => Some(t.generation),
            None => match self.recently_cancelled.get(&transfer_id) {
                Some(entry) => Some(entry.0),
                None => None,
            },
        };
        match old_gen {
            Some(g) => self.remember_ended(transfer_id, g, now_ms),
            None => {},
        }
        self.generation_counter = self.generation_counter + 1;
        let t = ActiveTransfer::new(
            transfer_id,
            self.generation_counter,
            file_type,
            file_size,
            now_ms,
        );
        self.put(transfer_id, t);
        proof {
            assert(v.active.remove(transfer_id).insert(transfer_id, t@) =~= v.active.insert(
                transfer_id,
                t@,
            ));
        }
        let reply = vec![transfer_id, DATAGRAM_START];
        assert(reply@ =~= seq![transfer_id, DATAGRAM_START]);
        Ok((FileTransferOutcome::Pending, Some(reply)))
    }

    /// A first or further data datagram of a transfer in state `expected`.
    fn handle_chunk(
        &mut self,
        transfer_id: u8,
        data: &[u8],
        now_ms: u64,
        expected: TransferState,
    ) -> (r: (FileTransferOutcome, Option<Vec<u8>>))
        requires
            old(self)@.active.contains_key(transfer_id) && old(self)@.active[transfer_id].state
                == expected ==> old(self)@.active[transfer_id].bytes_received + data@.len()
                <= u64::MAX,
        ensures
            step_matches(
                chunk_step(old(self)@, transfer_id, data@, now_ms, expected),
                final(self)@,
                r.0,
                r.1,
            ),
    {
        let ghost v = old(self)@;
        let mut t = match self.removed(transfer_id) {
            Some(t) => t,
            None => {
                assert(v.active.remove(transfer_id) =~= v.active);
                return (FileTransferOutcome::Pending, None);
            },
        };
        proof {
            assert(self@.active.remove(transfer_id) =~= v.active.remove(transfer_id));
        }
        if t.state != expected {
            let mut reason = owned("Invalid state for ");
            if expected == TransferState::Setup {
                push_text(&mut reason, "FirstData");
            } else {
                push_text(&mut reason, "Data");
            }
            push_text(&mut reason, ": ");
            push_text(&mut reason, t.state.name());
            return self.fail(transfer_id, t.generation, now_ms, reason);
        }
        let new_total = t.bytes_received + data.len() as u64;
        if t.file_size > 0 && new_total > t.file_size {
            let mut reason = with_number("Transfer exceeded declared size: ", new_total, " > ");
            push_number(&mut reason, t.file_size);
            return self.fail(transfer_id, t.generation, now_ms, reason);
        }
        push_bytes(&mut t.accumulated_data, data);
        t.bytes_received = new_total;
        t.state = TransferState::Receiving;
        self.put(transfer_id, t);
        proof {
            assert(v.active.remove(transfer_id).insert(transfer_id, t@) =~= v.active.insert(
                transfer_id,
                t@,
            ));
        }
        (FileTransferOutcome::Pending, None)
    }

    fn handle_last_data(&mut self, transfer_id: u8, data: &[u8], now_ms: u64) -> (r: (
        FileTransferOutcome,
        Option<Vec<u8>>,
    ))
        requires
            old(self)@.active.contains_key(transfer_id) && old(self)@.active[transfer_id].state
                == TransferState::Receiving ==> old(self)@.active[transfer_id].bytes_received
                + data@.len() <= u64::MAX,
        ensures
            step_matches(
                last_data_step(old(self)@, transfer_id, data@, now_ms),
                final(self)@,
                r.0,
                r.1,
            ),
    {
        let ghost v = old(self)@;
        let mut t = match self.removed(transfer_id) {
            Some(t) => t,
            None => {
                assert(v.active.remove(transfer_id) =~= v.active);
                return (FileTransferOutcome::Pending, None);
            },
        };
        proof {
            assert(self@.active.remove(transfer_id) =~= v.active.remove(transfer_id));
        }
        if t.state != TransferState::Receiving {
            let mut reason = owned("Invalid state for ");
            push_text(&mut reason, "LastData");
            push_text(&mut reason, ": ");
            push_text(&mut reason, t.state.name());
            return self.fail(transfer_id, t.generation, now_ms, reason);
        }
        let new_total = t.bytes_received + data.len() as u64;
        if t.file_size > 0 && new_total > t.file_size {
            let mut reason = with_number("Transfer exceeded declared size: ", new_total, " > ");
            push_number(&mut reason, t.file_size);
            return self.fail(transfer_id, t.generation, now_ms, reason);
        }
        let ghost t0 = t@;
        push_bytes(&mut t.accumulated_data, data);
        t.bytes_received = new_total;
        t.state = TransferState::Complete;
        self.finish(transfer_id, t, now_ms)
    }

    fn handle_first_and_only(&mut self, transfer_id: u8, data: &[u8], now_ms: u64) -> (r: (
        FileTransferOutcome,
        Option<Vec<u8>>,
    ))
        ensures
            step_matches(
                only_data_step(old(self)@, transfer_id, data@, now_ms),
                final(self)@,
                r.0,
                r.1,
            ),
    {
        let ghost v = old(self)@;
        let mut t = match self.removed(transfer_id) {
            Some(t) => t,
            None => {
                assert(v.active.remove(transfer_id) =~= v.active);
                return (FileTransferOutcome::Pending, None);
            },
        };
        proof {
            assert(self@.active.remove(transfer_id) =~= v.active.remove(transfer_id));
        }
        if t.file_size > 0 && data.len() as u64 > t.file_size {
            let mut reason = with_number(
                "Transfer exceeded declared size: ",
                data.len() as u64,
                " > ",
            );
            push_number(&mut reason, t.file_size);
            return self.fail(transfer_id, t.generation, now_ms, reason);
        }
        push_bytes(&mut t.accumulated_data, data);
        t.bytes_received = data.len() as u64;
        t.state = TransferState::Complete;
        self.finish(transfer_id, t, now_ms)
    }

    /// Whether the generation counter can count every transfer that expires
    /// at `now_ms`.
    pub fn cleanup_fits(&self, now_ms: u64) -> (r: bool)
        ensures
            r == cleanup_fits(self@, now_ms),
    {
        let ghost v = self@;
        let timeout_ms: u128 = self.config.transfer_timeout_secs as u128 * 1000;
        let mut count: u64 = 0;
        let mut id: u16 = 0;
        while id < 256
            invariant
                id <= 256,
                v == self@,
                timeout_ms == v.config.transfer_timeout_secs * 1000,
                count == expired_count(v, now_ms, id as int),
                count <= id,
            decreases 256 - id,
        {
            let k = id as u8;
            let is_expired = match self.active_transfers.get(&k) {
                Some(t) => (now_ms.saturating_sub(t.setup_timestamp) as u128) >= timeout_ms,
                None => false,
            };
            proof {
                if v.active.contains_key(k) {
                    assert(self.active_transfers@[k]@ == v.active[k]);
                }
                assert(is_expired == expired_at(v, k, now_ms));
                assert(((id + 1) - 1) as u8 == k);
            }
            if is_expired {
                count = count + 1;
            }
            id = id + 1;
        }
        count as u128 + self.generation_counter as u128 <= u64::MAX as u128
    }

    /// Handles one datagram from the device on the file transfer session:
    /// gives the outcome and the datagram to send back, if any. A setup
    /// datagram shorter than twelve bytes is a protocol error.
    pub fn handle_datagram(&mut self, payload: &[u8], now_ms: u64) -> (r: Result<
        (FileTransferOutcome, Option<Vec<u8>>),
    >)
        requires
            datagram_fits(old(self)@, payload@),
        ensures
            match r {
                Ok((outcome, reply)) => datagram_step(old(self)@, payload@, now_ms) matches Some(
                    s,
                ) && step_matches(s, final(self)@, outcome, reply),
                Err(e) => datagram_step(old(self)@, payload@, now_ms) is None && e is Protocol
                    && e->Protocol_0@ == "Setup datagram too short: "@ + decimal(payload@.len())
                    + " bytes"@ && final(self)@ == old(self)@,
            },
    {
        if payload.len() < 2 {
            return Ok((FileTransferOutcome::Pending, None));
        }
        let transfer_id = payload[0];
        let command = payload[1];
        let data = crate::packet::slice_range(payload, 2, payload.len());
        assert(data@ =~= payload@.skip(2));
        if command == DATAGRAM_SETUP {
            self.handle_setup(payload, now_ms)
        } else if command == DATAGRAM_FIRST_DATA {
            Ok(self.handle_chunk(transfer_id, data, now_ms, TransferState::Setup))
        } else if command == DATAGRAM_DATA {
            Ok(self.handle_chunk(transfer_id, data, now_ms, TransferState::Receiving))
        } else if command == DATAGRAM_LAST_DATA {
            Ok(self.handle_last_data(transfer_id, data, now_ms))
        } else if command == DATAGRAM_FIRST_AND_ONLY {
            Ok(self.handle_first_and_only(transfer_id, data, now_ms))
        } else if command == DATAGRAM_CANCEL {
            let ghost v = old(self)@;
            match self.removed(transfer_id) {
                Some(t) => {
                    self.remember_ended(transfer_id, t.generation, now_ms);
                },
                None => {
                    assert(v.active.remove(transfer_id) =~= v.active);
                },
            }
            Ok((FileTransferOutcome::Pending, None))
        } else {
            Ok((FileTransferOutcome::Pending, None))
        }
    }
    /// Ends the transfers that ran out of time, remembering each as ended
    /// with a new generation, forgets ended transfers older than twice the
    /// grace period, and gives the ids of the transfers that timed out, in
    /// ascending order.
    #[verifier::loop_isolation(false)]
    pub fn cleanup_stale(&mut self, now_ms: u64) -> (r: Vec<u8>)
        requires
            cleanup_fits(old(self)@, now_ms),
        ensures
            forall|a: int, b: int| 0 <= a < b < r@.len() ==> r@[a] < r@[b],
            forall|j: int| 0 <= j < r@.len() ==> expired_at(old(self)@, #[trigger] r@[j], now_ms),
            forall|k: u8| expired_at(old(self)@, k, now_ms) ==> r@.contains(k),
            final(self)@.config == old(self)@.config,
            final(self)@.generation == old(self)@.generation + r@.len(),
            forall|k: u8| #[trigger]
                final(self)@.active.contains_key(k) <==> old(self)@.active.contains_key(k)
                    && !expired_at(old(self)@, k, now_ms),
            forall|k: u8| #[trigger]
                final(self)@.active.contains_key(k) ==> final(self)@.active[k] == old(self)@.active[k],
            forall|j: int|
                0 <= j < r@.len() ==> (final(self)@.cancelled.contains_key(#[trigger] r@[j])
                    <==> still_remembered(old(self)@.config, now_ms, now_ms)),
            forall|j: int|
                0 <= j < r@.len() && still_remembered(old(self)@.config, now_ms, now_ms)
                    ==> final(self)@.cancelled[#[trigger] r@[j]] == (
                    (old(self)@.generation + j + 1) as u64,
                    now_ms,
                ),
            forall|k: u8|
                !expired_at(old(self)@, k, now_ms) ==> (
                #[trigger] final(self)@.cancelled.contains_key(k) <==> old(self)@.cancelled.contains_key(k) && still_remembered(
                    old(self)@.config,
                    old(self)@.cancelled[k].1,
                    now_ms,
                )),
            forall|k: u8|
                !expired_at(old(self)@, k, now_ms) && #[trigger] final(self)@.cancelled.contains_key(k) ==> final(self)@.cancelled[k] == old(self)@.cancelled[k],
    {
        let ghost v = old(self)@;
        let timeout_ms: u128 = self.config.transfer_timeout_secs as u128 * 1000;
        let mut timed_out: Vec<u8> = Vec::new();
        let mut id: u16 = 0;
        while id < 256
            invariant
                id <= 256,
                timeout_ms == v.config.transfer_timeout_secs * 1000,
                cleanup_fits(v, now_ms),
                timed_out@.len() == expired_count(v, now_ms, id as int),
                self@.config == v.config,
                self@.generation == v.generation + timed_out@.len(),
                forall|a: int, b: int|
                    0 <= a < b < timed_out@.len() ==> timed_out@[a] < timed_out@[b],
                forall|j: int| 0 <= j < timed_out@.len() ==> #[trigger] timed_out@[j] < id,
                forall|j: int|
                    0 <= j < timed_out@.len() ==> expired_at(v, #[trigger] timed_out@[j], now_ms),
                forall|k: u8| k < id && expired_at(v, k, now_ms) ==> timed_out@.contains(k),
                forall|k: u8| #[trigger]
                    self@.active.contains_key(k) <==> v.active.contains_key(k) && !(k < id
                        && expired_at(v, k, now_ms)),
                forall|k: u8| #[trigger]
                    self@.active.contains_key(k) ==> self@.active[k] == v.active[k],
                forall|j: int|
                    0 <= j < timed_out@.len() ==> self@.cancelled[#[trigger] timed_out@[j]] == (
                    (v.generation + j + 1) as u64,
                    now_ms,
                ) && self@.cancelled.contains_key(timed_out@[j]),
                forall|k: u8|
                    !(k < id && expired_at(v, k, now_ms)) ==> (
                    #[trigger] self@.cancelled.contains_key(k) <==> v.cancelled.contains_key(k)),
                forall|k: u8|
                    !(k < id && expired_at(v, k, now_ms)) && #[trigger] self@.cancelled.contains_key(
                        k,
                    ) ==> self@.cancelled[k] == v.cancelled[k],
            decreases 256 - id,
        {
            let k = id as u8;
            let ghost before = timed_out@;
            let is_expired = match self.active_transfers.get(&k) {
                Some(t) => (now_ms.saturating_sub(t.setup_timestamp) as u128) >= timeout_ms,
                None => false,
            };
            proof {
                assert(self@.active.contains_key(k) == v.active.contains_key(k));
                if v.active.contains_key(k) {
                    assert(self@.active[k] == v.active[k]);
                }
                assert(is_expired == expired_at(v, k, now_ms));
            }
            if is_expired {
                proof {
                    lemma_expired_count_grows(v, now_ms, id + 1, 256);
                }
                let _ = self.removed(k);
                self.generation_counter = self.generation_counter + 1;
                let g = self.generation_counter;
                self.remember_ended(k, g, now_ms);
                timed_out.push(k);
                proof {
                    assert(timed_out@[timed_out@.len() - 1] == k);
                    assert forall|j: int| 0 <= j < before.len() implies timed_out@[j] == before[j] by {}
                }
            }
            id = id + 1;
            proof {
                assert forall|k2: u8| k2 < id && expired_at(v, k2, now_ms) implies timed_out@.contains(
                    k2,
                ) by {
                    if k2 == k {
                        assert(timed_out@[timed_out@.len() - 1] == k);
                    } else {
                        assert(before.contains(k2));
                        let j = choose|j: int| 0 <= j < before.len() && before[j] == k2;
                        assert(timed_out@[j] == k2);
                    }
                }
            }
        }
        let grace2: u128 = self.config.stale_packet_grace_ms as u128 * 2;
        let ghost mid = self@;
        let mut id: u16 = 0;
        while id < 256
            invariant
                id <= 256,
                grace2 == 2 * v.config.stale_packet_grace_ms,
                mid.config == v.config,
                self@.config == mid.config,
                self@.generation == mid.generation,
                self@.active == mid.active,
                forall|k: u8| #[trigger]
                    self@.cancelled.contains_key(k) <==> mid.cancelled.contains_key(k) && !(k < id
                        && !still_remembered(mid.config, mid.cancelled[k].1, now_ms)),
                forall|k: u8| #[trigger]
                    self@.cancelled.contains_key(k) ==> self@.cancelled[k] == mid.cancelled[k],
            decreases 256 - id,
        {
            let k = id as u8;
            let ghost prev = self@.cancelled;
            let stale = match self.recently_cancelled.get(&k) {
                Some(entry) => !((now_ms.saturating_sub(entry.1) as u128) < grace2),
                None => false,
            };
            proof {
                assert(prev.contains_key(k) == mid.cancelled.contains_key(k));
                if prev.contains_key(k) {
                    assert(prev[k] == mid.cancelled[k]);
                    assert(stale == !still_remembered(mid.config, mid.cancelled[k].1, now_ms));
                }
            }
            if stale {
                self.recently_cancelled.remove(&k);
                assert(self@.cancelled == prev.remove(k));
            }
            id = id + 1;
        }
        proof {
            assert forall|j: int|
                0 <= j < timed_out@.len() && still_remembered(
                    v.config,
                    now_ms,
                    now_ms,
                ) implies self@.cancelled[#[trigger] timed_out@[j]] == (
                (v.generation + j + 1) as u64,
                now_ms,
            ) by {
                let k = timed_out@[j];
                assert(mid.cancelled.contains_key(k));
                assert(mid.cancelled[k] == ((v.generation + j + 1) as u64, now_ms));
                assert(self@.cancelled.contains_key(k));
            }
        }
        timed_out
    }
}

impl Default for FileTransferHandler {
    fn default() -> (r: Self)
        ensures
            r@.active == Map::<u8, TransferView>::empty(),
            r@.generation == 0,
            r@.cancelled == Map::<u8, (u64, u64)>::empty(),
            r@.config.transfer_timeout_secs == 30,
            r@.config.stale_packet_grace_ms == 1000,
    {
        Self::new(FileTransferConfig::default())
    }
}

/// Every transfer in progress holds exactly as many bytes as it counts, and
/// never more than the size it announced.
pub open spec fn transfers_consistent(v: HandlerView) -> bool {
    forall|k: u8| #[trigger]
        v.active.contains_key(k) ==> {
            &&& v.active[k].data.len() == v.active[k].bytes_received
            &&& v.active[k].file_size > 0 ==> v.active[k].bytes_received <= v.active[k].file_size
        }
}

/// Handling a datagram keeps the transfers in progress consistent.
pub proof fn lemma_datagram_keeps_transfers_consistent(v: HandlerView, payload: Seq<u8>, now: u64)
    requires
        transfers_consistent(v),
        datagram_fits(v, payload),
    ensures
        datagram_step(v, payload, now) matches Some(s) ==> transfers_consistent(s.state),
{
    if payload.len() >= 2 {
        let id = payload[0];
        let data = payload.skip(2);
        let command = payload[1];
        if command == DATAGRAM_SETUP {
            if let Some(s) = setup_step(v, payload, now) {
                assert forall|k: u8| #[trigger] s.state.active.contains_key(k) implies {
                    &&& s.state.active[k].data.len() == s.state.active[k].bytes_received
                    &&& s.state.active[k].file_size > 0 ==> s.state.active[k].bytes_received
                        <= s.state.active[k].file_size
                } by {
                    if k != id {
                        assert(v.active.contains_key(k));
                    }
                }
            }
        } else if command == DATAGRAM_FIRST_DATA || command == DATAGRAM_DATA {
            let expected = if command == DATAGRAM_FIRST_DATA {
                TransferState::Setup
            } else {
                TransferState::Receiving
            };
            let s = chunk_step(v, id, data, now, expected);
            if v.active.contains_key(id) {
                let t = v.active[id];
                assert(v.active.contains_key(id));
                assert forall|k: u8| #[trigger] s.state.active.contains_key(k) implies {
                    &&& s.state.active[k].data.len() == s.state.active[k].bytes_received
                    &&& s.state.active[k].file_size > 0 ==> s.state.active[k].bytes_received
                        <= s.state.active[k].file_size
                } by {
                    if k != id {
                        assert(v.active.contains_key(k));
                    }
                }
            }
        } else {
            let s = datagram_step(v, payload, now)->0;
            assert forall|k: u8| #[trigger] s.state.active.contains_key(k) implies {
                &&& s.state.active[k].data.len() == s.state.active[k].bytes_received
                &&& s.state.active[k].file_size > 0 ==> s.state.active[k].bytes_received
                    <= s.state.active[k].file_size
            } by {
                assert(v.active.contains_key(k));
            }
        }
    }
}

/// A transfer that completes or is found corrupted ends: it is no longer in
/// progress, and the device is told of success or failure. Completed
/// artwork is a whole image: it starts with the start-of-image marker and
/// ends with the end-of-image marker, unless the file was empty.
pub proof fn lemma_finished_transfers_end(v: HandlerView, payload: Seq<u8>, now: u64)
    ensures
        datagram_step(v, payload, now) matches Some(s) ==> match s.outcome {
            OutcomeView::Completed { transfer_id, data, .. } => {
                &&& !s.state.active.contains_key(transfer_id)
                &&& s.reply == Some(seq![transfer_id, DATAGRAM_SUCCESS])
                &&& data.len() > 0 ==> {
                    &&& data.len() >= 4
                    &&& data[0] == 0xFF && data[1] == 0xD8
                    &&& data[data.len() - 2] == 0xFF && data[data.len() - 1] == 0xD9
                }
            },
            OutcomeView::Corrupted { transfer_id, .. } => {
                &&& !s.state.active.contains_key(transfer_id)
                &&& s.reply == Some(seq![transfer_id, DATAGRAM_FAILURE])
            },
            OutcomeView::Pending => true,
        },
{
    if payload.len() >= 2 {
        let id = payload[0];
        let data = payload.skip(2);
        if v.active.contains_key(id) {
            let t = v.active[id];
            lemma_sanitized_is_an_image(t.data + data, t.file_size);
        }
    }
}

/// Ending some transfers, as the cleanup of stale transfers does, keeps the
/// others consistent.
pub proof fn lemma_fewer_transfers_stay_consistent(before: HandlerView, after: HandlerView)
    requires
        transfers_consistent(before),
        forall|k: u8| #[trigger]
            after.active.contains_key(k) ==> before.active.contains_key(k) && after.active[k]
                == before.active[k],
    ensures
        transfers_consistent(after),
{
    assert forall|k: u8| #[trigger] after.active.contains_key(k) implies {
        &&& after.active[k].data.len() == after.active[k].bytes_received
        &&& after.active[k].file_size > 0 ==> after.active[k].bytes_received
            <= after.active[k].file_size
    } by {
        assert(before.active.contains_key(k));
    }
}

proof fn lemma_expired_count_none(v: HandlerView, now: u64, n: int)
    requires
        forall|k: u8| !expired_at(v, k, now),
    ensures
        expired_count(v, now, n) == 0,
    decreases n,
{
    if n > 0 {
        lemma_expired_count_none(v, now, n - 1);
    }
}

/// After the stale transfers are cleaned up at `now`, no transfer in progress
/// is expired at `now`, so cleaning up again at the same time ends nothing
/// and its generation counter fits.
pub proof fn lemma_cleanup_leaves_nothing_expired(
    before: HandlerView,
    after: HandlerView,
    now: u64,
)
    requires
        after.config == before.config,
        after.generation <= u64::MAX,
        forall|k: u8| #[trigger]
            after.active.contains_key(k) <==> before.active.contains_key(k) && !expired_at(
                before,
                k,
                now,
            ),
        forall|k: u8| #[trigger]
            after.active.contains_key(k) ==> after.active[k] == before.active[k],
    ensures
        forall|k: u8| !expired_at(after, k, now),
        expired_count(after, now, 256) == 0,
        cleanup_fits(after, now),
{
    assert forall|k: u8| !expired_at(after, k, now) by {
        if after.active.contains_key(k) {
            assert(after.active[k] == before.active[k]);
        }
    }
    lemma_expired_count_none(after, now, 256);
}

/// The datagram that carries data chunk `c` of transfer `id`: a first data
/// datagram for the first chunk, a further data datagram otherwise.
pub open spec fn data_datagram(id: u8, first: bool, c: Seq<u8>) -> Seq<u8> {
    seq![id, if first { DATAGRAM_FIRST_DATA } else { DATAGRAM_DATA }] + c
}

/// The chunks one after another.
pub open spec fn concat(chunks: Seq<Seq<u8>>) -> Seq<u8>
    decreases chunks.len(),
{
    if chunks.len() == 0 {
        Seq::empty()
    } else {
        concat(chunks.drop_last()) + chunks.last()
    }
}

/// The handler's state after the data datagrams of `chunks` for transfer `id`.
pub open spec fn after_chunks(v: HandlerView, id: u8, chunks: Seq<Seq<u8>>, now: u64) -> HandlerView
    decreases chunks.len(),
{
    if chunks.len() == 0 {
        v
    } else {
        datagram_step(
            after_chunks(v, id, chunks.drop_last(), now),
            data_datagram(id, chunks.len() == 1, chunks.last()),
            now,
        )->0.state
    }
}

/// Data chunks that stay within the announced size are gathered in order,
/// and the transfer is receiving.
proof fn lemma_chunks_gather(
    v: HandlerView,
    id: u8,
    t0: TransferView,
    chunks: Seq<Seq<u8>>,
    bound: int,
    now: u64,
)
    requires
        v.active.contains_key(id),
        v.active[id] == t0,
        t0.state == TransferState::Setup,
        t0.data.len() == 0,
        t0.bytes_received == 0,
        chunks.len() >= 1,
        concat(chunks).len() <= bound,
        bound <= u64::MAX,
        t0.file_size == 0 || bound <= t0.file_size,
    ensures
        after_chunks(v, id, chunks, now).active.contains_key(id),
        after_chunks(v, id, chunks, now).active[id] == (TransferView {
            data: concat(chunks),
            bytes_received: concat(chunks).len() as u64,
            state: TransferState::Receiving,
            ..t0
        }),
    decreases chunks.len(),
{
    let c = chunks.last();
    let d = data_datagram(id, chunks.len() == 1, c);
    assert(d.skip(2) =~= c);
    if chunks.len() == 1 {
        assert(chunks.drop_last() =~= Seq::<Seq<u8>>::empty());
        assert(concat(chunks) =~= c);
    } else {
        lemma_chunks_gather(v, id, t0, chunks.drop_last(), bound, now);
    }
}

/// A transfer set up by `setup`, sent in `chunks` and ended by a last data
/// datagram with `last` completes with the artwork kept from all its bytes,
/// when their number is the announced size (or none was announced) and the
/// artwork passes its check: the device is told of success, and the
/// transfer is no longer in progress.
pub proof fn lemma_transfer_completes(
    v: HandlerView,
    setup: Seq<u8>,
    chunks: Seq<Seq<u8>>,
    last: Seq<u8>,
    now: u64,
)
    requires
        setup.len() >= 12,
        setup[1] == DATAGRAM_SETUP,
        v.generation < u64::MAX,
        chunks.len() >= 1,
        (concat(chunks) + last).len() <= u64::MAX,
        be_value(setup.subrange(2, 10)) == 0 || (concat(chunks) + last).len() == be_value(
            setup.subrange(2, 10),
        ),
        sanitized(concat(chunks) + last, be_value(setup.subrange(2, 10)) as u64) is Some,
    ensures
        ({
            let id = setup[0];
            let v1 = datagram_step(v, setup, now)->0.state;
            let vk = after_chunks(v1, id, chunks, now);
            &&& datagram_step(vk, seq![id, DATAGRAM_LAST_DATA] + last, now) matches Some(s)
            &&& s.outcome == OutcomeView::Completed {
                transfer_id: id,
                file_type: be16_value(setup[10], setup[11]) as u16,
                data: sanitized(
                    concat(chunks) + last,
                    be_value(setup.subrange(2, 10)) as u64,
                )->0,
            }
            &&& s.reply == Some(seq![id, DATAGRAM_SUCCESS])
            &&& !s.state.active.contains_key(id)
        }),
{
    let id = setup[0];
    let size = be_value(setup.subrange(2, 10));
    lemma_be_value_bound(setup.subrange(2, 10));
    reveal_with_fuel(pow256, 9);
    let v1 = datagram_step(v, setup, now)->0.state;
    let t0 = v1.active[id];
    let a = concat(chunks) + last;
    lemma_chunks_gather(v1, id, t0, chunks, a.len() as int, now);
    let vk = after_chunks(v1, id, chunks, now);
    let d = seq![id, DATAGRAM_LAST_DATA] + last;
    assert(d.skip(2) =~= last);
}

/// A datagram too short to name a command, or with a command that the
/// handler does not act on, changes nothing and is not answered.
pub proof fn lemma_other_datagrams_are_ignored(v: HandlerView, payload: Seq<u8>, now: u64)
    requires
        payload.len() < 2 || (payload[1] != DATAGRAM_SETUP && payload[1] != DATAGRAM_FIRST_DATA
            && payload[1] != DATAGRAM_DATA && payload[1] != DATAGRAM_LAST_DATA && payload[1]
            != DATAGRAM_FIRST_AND_ONLY && payload[1] != DATAGRAM_CANCEL),
    ensures
        datagram_step(v, payload, now) == Some(idle_step(v)),
{
}

/// A last data datagram for a transfer that got no first data yet, or whose
/// bytes do not add up to the announced size, corrupts the transfer: the
/// device is told of failure, the transfer ends, and later data datagrams
/// for it are ignored.
pub proof fn lemma_bad_last_data_corrupts(
    v: HandlerView,
    id: u8,
    last: Seq<u8>,
    later: Seq<u8>,
    now: u64,
)
    requires
        v.active.contains_key(id),
        v.active[id].state == TransferState::Setup || (v.active[id].state
            == TransferState::Receiving && v.active[id].file_size > 0 && v.active[id].data.len()
            + last.len() != v.active[id].file_size),
        v.active[id].data.len() == v.active[id].bytes_received,
    ensures
        ({
            let s = datagram_step(v, seq![id, DATAGRAM_LAST_DATA] + last, now)->0;
            &&& s.outcome matches OutcomeView::Corrupted { transfer_id, .. } && transfer_id == id
            &&& s.reply == Some(seq![id, DATAGRAM_FAILURE])
            &&& !s.state.active.contains_key(id)
            &&& datagram_step(s.state, seq![id, DATAGRAM_DATA] + later, now) == Some(
                idle_step(s.state),
            )
            &&& datagram_step(s.state, seq![id, DATAGRAM_LAST_DATA] + later, now) == Some(
                idle_step(s.state),
            )
        }),
{
    let d = seq![id, DATAGRAM_LAST_DATA] + last;
    assert(d.skip(2) =~= last);
    let s = datagram_step(v, d, now)->0;
    assert(!s.state.active.contains_key(id));
    let d2 = seq![id, DATAGRAM_DATA] + later;
    assert(d2.skip(2) =~= later);
    let d3 = seq![id, DATAGRAM_LAST_DATA] + later;
    assert(d3.skip(2) =~= later);
}

/// A setup datagram shorter than twelve bytes is refused; a longer one
/// starts transfer `payload[0]` afresh, empty and waiting for its first
/// data, with the announced size and file type, replacing any earlier one,
/// and the device is told to start.
pub proof fn lemma_setup_starts_transfer(v: HandlerView, payload: Seq<u8>, now: u64)
    requires
        payload.len() >= 2,
        payload[1] == DATAGRAM_SETUP,
    ensures
        payload.len() < 12 ==> datagram_step(v, payload, now) is None,
        payload.len() >= 12 ==> {
            let s = datagram_step(v, payload, now)->0;
            let t = s.state.active[payload[0]];
            &&& s.outcome == OutcomeView::Pending
            &&& s.reply == Some(seq![payload[0], DATAGRAM_START])
            &&& s.state.active.contains_key(payload[0])
            &&& t.state == TransferState::Setup
            &&& t.data.len() == 0 && t.bytes_received == 0
            &&& t.file_size == be_value(payload.subrange(2, 10))
            &&& t.file_type == be16_value(payload[10], payload[11])
            &&& forall|k: u8| k != payload[0] ==> (#[trigger] s.state.active.contains_key(k)
                <==> v.active.contains_key(k))
        },
{
    if payload.len() >= 12 {
        lemma_be_value_bound(payload.subrange(2, 10));
        reveal_with_fuel(pow256, 9);
    }
}

/// A transfer set up by `setup` and sent whole in one first-and-only
/// datagram with `data` completes with the artwork kept from `data`, when
/// its length is the announced size (or none was announced) and the artwork
/// passes its check: the device is told of success, and the transfer is no
/// longer in progress.
pub proof fn lemma_single_datagram_transfer_completes(
    v: HandlerView,
    setup: Seq<u8>,
    data: Seq<u8>,
    now: u64,
)
    requires
        setup.len() >= 12,
        setup[1] == DATAGRAM_SETUP,
        v.generation < u64::MAX,
        data.len() <= u64::MAX,
        be_value(setup.subrange(2, 10)) == 0 || data.len() == be_value(setup.subrange(2, 10)),
        sanitized(data, be_value(setup.subrange(2, 10)) as u64) is Some,
    ensures
        ({
            let id = setup[0];
            let v1 = datagram_step(v, setup, now)->0.state;
            &&& datagram_step(v1, seq![id, DATAGRAM_FIRST_AND_ONLY] + data, now) matches Some(s)
            &&& s.outcome == OutcomeView::Completed {
                transfer_id: id,
                file_type: be16_value(setup[10], setup[11]) as u16,
                data: sanitized(data, be_value(setup.subrange(2, 10)) as u64)->0,
            }
            &&& s.reply == Some(seq![id, DATAGRAM_SUCCESS])
            &&& !s.state.active.contains_key(id)
        }),
{
    let id = setup[0];
    lemma_be_value_bound(setup.subrange(2, 10));
    reveal_with_fuel(pow256, 9);
    let v1 = datagram_step(v, setup, now)->0.state;
    let t0 = v1.active[id];
    assert(t0.data.len() == 0);
    assert(t0.data + data =~= data);
    let d = seq![id, DATAGRAM_FIRST_AND_ONLY] + data;
    assert(d.skip(2) =~= data);
}

/// A first-and-only datagram whose data is not the announced size of its
/// transfer corrupts the transfer: the device is told of failure and the
/// transfer ends.
pub proof fn lemma_single_datagram_of_wrong_size_corrupts(v: HandlerView, id: u8, data: Seq<u8>, now: u64)
    requires
        v.active.contains_key(id),
        v.active[id].data.len() == 0,
        v.active[id].file_size > 0,
        data.len() != v.active[id].file_size,
    ensures
        ({
            let s = datagram_step(v, seq![id, DATAGRAM_FIRST_AND_ONLY] + data, now)->0;
            &&& s.outcome matches OutcomeView::Corrupted { transfer_id, .. } && transfer_id == id
            &&& s.reply == Some(seq![id, DATAGRAM_FAILURE])
            &&& !s.state.active.contains_key(id)
        }),
{
    let d = seq![id, DATAGRAM_FIRST_AND_ONLY] + data;
    assert(d.skip(2) =~= data);
    assert(v.active[id].data + data =~= data);
}

} // verus!
