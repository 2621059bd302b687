//! The decisions of a connection: what each message of the device asks of
//! the accessory, during authentication and afterwards.

use vstd::prelude::*;

use crate::mfi::MfiAuthProvider;
use crate::packet::slice_range;
use crate::session::now_playing::now_playing_value;
use crate::session::NowPlayingParser;
use crate::session::FILE_TRANSFER_SESSION_ID;
use crate::types::{
    ConnectionConfig, DeviceIdentification, FileTransferConfig, HidConfig, LinkConfig,
    NowPlayingConfig, NowPlayingInfo, PowerConfig,
};
use crate::wire::{be16, be16_value, control_message, lemma_be16_reads_back, read_be16};

verus! {

/// RequestAuthenticationCertificate.
pub const REQUEST_AUTH_CERTIFICATE: u16 = 0xAA00;

/// RequestAuthenticationChallengeResponse.
pub const REQUEST_AUTH_CHALLENGE_RESPONSE: u16 = 0xAA02;

/// AuthenticationFailed.
pub const AUTHENTICATION_FAILED: u16 = 0xAA04;

/// AuthenticationSucceeded.
pub const AUTHENTICATION_SUCCEEDED: u16 = 0xAA05;

/// StartIdentification.
pub const START_IDENTIFICATION: u16 = 0x1D00;

/// IdentificationAccepted.
pub const IDENTIFICATION_ACCEPTED: u16 = 0x1D02;

/// IdentificationRejected.
pub const IDENTIFICATION_REJECTED: u16 = 0x1D03;

/// StartExternalAccessoryProtocolSession, as the device sends it.
pub const EA_SESSION_STARTED: u16 = 0xEA00;

/// StopExternalAccessoryProtocolSession.
pub const EA_SESSION_STOPPED: u16 = 0xEA01;

/// NowPlayingUpdate.
pub const NOW_PLAYING_UPDATE: u16 = 0x5001;

/// StatusUpdate.
pub const STATUS_UPDATE: u16 = 0x4158;

/// The control session id assumed when no packet named one.
pub const DEFAULT_CONTROL_SESSION_ID: u8 = 0x0A;

/// What a connection is set up with.
pub struct Iap2Config<P: MfiAuthProvider> {
    pub identification: DeviceIdentification,
    pub mfi_provider: P,
    pub enable_now_playing: bool,
    pub enable_hid: bool,
    pub link_config: LinkConfig,
    pub now_playing_config: NowPlayingConfig,
    pub hid_config: HidConfig,
    pub file_transfer_config: FileTransferConfig,
    pub connection_config: ConnectionConfig,
    pub power_config: PowerConfig,
}

/// The header of a control message: its id and its declared length.
pub struct ControlHeader {
    pub msg_id: u16,
    pub msg_len: usize,
}

/// The id and length of the control message that a payload starts with:
/// the start bytes `40 40`, a 16-bit length between 6 and the payload's
/// length, and a 16-bit message id.
pub open spec fn control_header(p: Seq<u8>) -> Option<(u16, int)> {
    if p.len() >= 6 && p[0] == 0x40 && p[1] == 0x40 && 6 <= be16_value(p[2], p[3]) <= p.len() {
        Some((be16_value(p[4], p[5]) as u16, be16_value(p[2], p[3])))
    } else {
        None
    }
}

/// Reads the header of a control message; `None` for a payload that does
/// not hold one.
pub fn parse_control_header(payload: &[u8]) -> (r: Option<ControlHeader>)
    ensures
        match control_header(payload@) {
            Some((id, len)) => r is Some && r->0.msg_id == id && r->0.msg_len == len,
            None => r is None,
        },
{
    if payload.len() < 6 {
        return None;
    }
    if payload[0] != 0x40 || payload[1] != 0x40 {
        return None;
    }
    let msg_len = read_be16(payload[2], payload[3]) as usize;
    if msg_len < 6 || msg_len > payload.len() {
        return None;
    }
    let msg_id = read_be16(payload[4], payload[5]);
    Some(ControlHeader { msg_id, msg_len })
}

/// What a message received during authentication asks of the accessory.
pub enum AuthAction {
    /// The payload holds no control message.
    Ignore,
    /// Send the certificate on the given session.
    SendCertificate { session_id: u8 },
    /// Answer the challenge whose parameters are the payload's bytes from
    /// 6 up to `params_end`, on the given session.
    AnswerChallenge { session_id: u8, params_end: usize },
    /// Authentication succeeded; the given session is the control session.
    Succeeded { session_id: u8 },
    /// The device refused the accessory.
    Failed,
    /// A message that authentication does not handle.
    Unhandled { msg_id: u16 },
}

/// The authentication exchange: the control session id, once a packet
/// named one.
pub struct AuthTracker {
    control_session_id: Option<u8>,
}

impl AuthTracker {
    pub closed spec fn known_session(&self) -> Option<u8> {
        self.control_session_id
    }

    pub fn new() -> (r: Self)
        ensures
            r.known_session() is None,
    {
        AuthTracker { control_session_id: None }
    }

    /// The control session id: the first one that a packet named, or the
    /// default one.
    pub open spec fn session_or_default(&self) -> u8 {
        match self.known_session() {
            Some(s) => s,
            None => DEFAULT_CONTROL_SESSION_ID,
        }
    }

    /// A packet arrived during authentication, on `session_id` if it names
    /// one: the first session named becomes the control session, and the
    /// control message, if any, decides what to do.
    pub fn on_packet(&mut self, session_id: Option<u8>, payload: &[u8]) -> (r: AuthAction)
        ensures
            final(self).known_session() == (if old(self).known_session() is None {
                session_id
            } else {
                old(self).known_session()
            }),
            match control_header(payload@) {
                None => r is Ignore,
                Some((id, len)) => {
                    let sid = final(self).session_or_default();
                    if id == REQUEST_AUTH_CERTIFICATE {
                        r == AuthAction::SendCertificate { session_id: sid }
                    } else if id == REQUEST_AUTH_CHALLENGE_RESPONSE {
                        r == AuthAction::AnswerChallenge { session_id: sid, params_end: len as usize }
                    } else if id == AUTHENTICATION_SUCCEEDED {
                        r == AuthAction::Succeeded { session_id: sid }
                    } else if id == AUTHENTICATION_FAILED {
                        r is Failed
                    } else {
                        r == AuthAction::Unhandled { msg_id: id }
                    }
                },
            },
    {
        if self.control_session_id.is_none() {
            self.control_session_id = session_id;
        }
        let sid = match self.control_session_id {
            Some(s) => s,
            None => DEFAULT_CONTROL_SESSION_ID,
        };
        match parse_control_header(payload) {
            None => AuthAction::Ignore,
            Some(h) => {
                if h.msg_id == REQUEST_AUTH_CERTIFICATE {
                    AuthAction::SendCertificate { session_id: sid }
                } else if h.msg_id == REQUEST_AUTH_CHALLENGE_RESPONSE {
                    AuthAction::AnswerChallenge { session_id: sid, params_end: h.msg_len }
                } else if h.msg_id == AUTHENTICATION_SUCCEEDED {
                    AuthAction::Succeeded { session_id: sid }
                } else if h.msg_id == AUTHENTICATION_FAILED {
                    AuthAction::Failed
                } else {
                    AuthAction::Unhandled { msg_id: h.msg_id }
                }
            },
        }
    }
}

/// What a message of the control session asks of the accessory.
pub enum ControlAction {
    /// The payload holds no control message.
    Ignore,
    /// Send the identification.
    SendIdentification,
    /// The identification was accepted: request the accessory's protocol
    /// session.
    IdentificationAccepted,
    /// The identification was rejected.
    IdentificationRejected,
    /// The device started a protocol session with the given id; start the
    /// NowPlaying updates and the media remote where so flagged.
    EaSessionStarted { session_id: u8, start_now_playing: bool, start_hid: bool },
    /// A session start whose parameters do not hold a session id.
    EaSessionInvalid,
    /// The device stopped a protocol session, whose id `stopped` names where
    /// the payload is long enough; stop the media remote where so flagged.
    EaSessionStopped { stopped: Option<u8>, stop_hid: bool },
    /// A NowPlaying update, where its parameters could be read.
    NowPlayingUpdate { update: Option<NowPlayingInfo> },
    /// The answer to a keepalive.
    StatusUpdate,
    /// A message that the accessory does not handle.
    Unhandled { msg_id: u16 },
}

/// Whether the parameters of a session start hold a session id: a
/// parameter header with id 0 and one byte.
pub open spec fn holds_session_id(params: Seq<u8>) -> bool {
    params.len() >= 5 && be16_value(params[2], params[3]) == 0
}

/// What a control message asks, given whether NowPlaying updates and the
/// media remote are enabled and whether they already run: `r` is the
/// answer.
pub open spec fn control_decision(
    payload: Seq<u8>,
    enable_now_playing: bool,
    now_playing_active: bool,
    enable_hid: bool,
    hid_started: bool,
    r: ControlAction,
) -> bool {
    match control_header(payload) {
        None => r is Ignore,
        Some((id, len)) => {
            let params = payload.subrange(6, len);
            if id == START_IDENTIFICATION {
                r is SendIdentification
            } else if id == IDENTIFICATION_ACCEPTED {
                r is IdentificationAccepted
            } else if id == IDENTIFICATION_REJECTED {
                r is IdentificationRejected
            } else if id == EA_SESSION_STARTED {
                if holds_session_id(params) {
                    r == ControlAction::EaSessionStarted {
                        session_id: params[4],
                        start_now_playing: enable_now_playing && !now_playing_active,
                        start_hid: enable_hid && !hid_started,
                    }
                } else {
                    r is EaSessionInvalid
                }
            } else if id == EA_SESSION_STOPPED {
                r == ControlAction::EaSessionStopped {
                    stopped: if payload.len() >= 11 {
                        Some(payload[10])
                    } else {
                        None
                    },
                    stop_hid: hid_started,
                }
            } else if id == NOW_PLAYING_UPDATE {
                &&& r is NowPlayingUpdate
                &&& match r->update {
                    Some(info) => now_playing_value(params) == Some(info@),
                    None => now_playing_value(params) is None,
                }
            } else if id == STATUS_UPDATE {
                r is StatusUpdate
            } else {
                r == ControlAction::Unhandled { msg_id: id }
            }
        },
    }
}

/// Decides what a control message asks, given whether NowPlaying updates
/// and the media remote are enabled and whether they already run.
pub fn control_action(
    payload: &[u8],
    enable_now_playing: bool,
    now_playing_active: bool,
    enable_hid: bool,
    hid_started: bool,
) -> (r: ControlAction)
    ensures
        control_decision(
            payload@,
            enable_now_playing,
            now_playing_active,
            enable_hid,
            hid_started,
            r,
        ),
{
    let h = match parse_control_header(payload) {
        Some(h) => h,
        None => {
            return ControlAction::Ignore;
        },
    };
    let msg_id = h.msg_id;
    if msg_id == START_IDENTIFICATION {
        ControlAction::SendIdentification
    } else if msg_id == IDENTIFICATION_ACCEPTED {
        ControlAction::IdentificationAccepted
    } else if msg_id == IDENTIFICATION_REJECTED {
        ControlAction::IdentificationRejected
    } else if msg_id == EA_SESSION_STARTED {
        let params = slice_range(payload, 6, h.msg_len);
        if params.len() >= 5 && read_be16(params[2], params[3]) == 0 {
            ControlAction::EaSessionStarted {
                session_id: params[4],
                start_now_playing: enable_now_playing && !now_playing_active,
                start_hid: enable_hid && !hid_started,
            }
        } else {
            ControlAction::EaSessionInvalid
        }
    } else if msg_id == EA_SESSION_STOPPED {
        let session_id = if payload.len() >= 11 {
            Some(payload[10])
        } else {
            None
        };
        ControlAction::EaSessionStopped { stopped: session_id, stop_hid: hid_started }
    } else if msg_id == NOW_PLAYING_UPDATE {
        let params = slice_range(payload, 6, h.msg_len);
        ControlAction::NowPlayingUpdate { update: NowPlayingParser::parse(params) }
    } else if msg_id == STATUS_UPDATE {
        ControlAction::StatusUpdate
    } else {
        ControlAction::Unhandled { msg_id }
    }
}

/// What the control session has set going on its own: the NowPlaying
/// updates are requested once per connection, however often the device
/// starts a protocol session.
pub struct ControlFlow {
    enable_now_playing: bool,
    enable_hid: bool,
    now_playing_active: bool,
}

impl ControlFlow {
    pub closed spec fn now_playing_enabled(&self) -> bool {
        self.enable_now_playing
    }

    pub closed spec fn hid_enabled(&self) -> bool {
        self.enable_hid
    }

    /// Whether the NowPlaying updates were requested.
    pub closed spec fn now_playing_running(&self) -> bool {
        self.now_playing_active
    }

    /// The flow of a new connection: nothing requested yet.
    pub fn new(enable_now_playing: bool, enable_hid: bool) -> (r: Self)
        ensures
            r.now_playing_enabled() == enable_now_playing,
            r.hid_enabled() == enable_hid,
            !r.now_playing_running(),
    {
        ControlFlow { enable_now_playing, enable_hid, now_playing_active: false }
    }

    /// Whether the NowPlaying updates were requested.
    pub fn now_playing_active(&self) -> (r: bool)
        ensures
            r == self.now_playing_running(),
    {
        self.now_playing_active
    }

    /// What a control message asks, given whether the media remote runs.
    pub fn action(&self, payload: &[u8], hid_started: bool) -> (r: ControlAction)
        ensures
            control_decision(
                payload@,
                self.now_playing_enabled(),
                self.now_playing_running(),
                self.hid_enabled(),
                hid_started,
                r,
            ),
    {
        control_action(
            payload,
            self.enable_now_playing,
            self.now_playing_active,
            self.enable_hid,
            hid_started,
        )
    }

    /// The request for NowPlaying updates went out.
    pub fn now_playing_started(&mut self)
        ensures
            final(self).now_playing_running(),
            final(self).now_playing_enabled() == old(self).now_playing_enabled(),
            final(self).hid_enabled() == old(self).hid_enabled(),
    {
        self.now_playing_active = true;
    }
}

/// Once the NowPlaying updates were requested, no later session start asks
/// for them again; a session start asks for them only where they are
/// enabled and not yet requested.
pub proof fn lemma_now_playing_requested_once(
    flow: ControlFlow,
    payload: Seq<u8>,
    hid_started: bool,
    r: ControlAction,
)
    requires
        control_decision(
            payload,
            flow.now_playing_enabled(),
            flow.now_playing_running(),
            flow.hid_enabled(),
            hid_started,
            r,
        ),
    ensures
        r matches ControlAction::EaSessionStarted { start_now_playing, .. } ==> (start_now_playing
            <==> flow.now_playing_enabled() && !flow.now_playing_running()),
        flow.now_playing_running() ==> !(r matches ControlAction::EaSessionStarted {
            start_now_playing,
            ..
        } && start_now_playing),
{
}

/// The handler that a packet of an established connection goes to.
pub enum SessionRoute {
    Control,
    FileTransfer,
    ExternalAccessory,
}

/// Routes a packet by its session: the control session first, then the
/// file transfer session, and every other session to the external
/// accessory sessions.
pub fn route(session_id: u8, control_session_id: u8) -> (r: SessionRoute)
    ensures
        session_id == control_session_id ==> r is Control,
        session_id != control_session_id && session_id == FILE_TRANSFER_SESSION_ID
            ==> r is FileTransfer,
        session_id != control_session_id && session_id != FILE_TRANSFER_SESSION_ID
            ==> r is ExternalAccessory,
{
    if session_id == control_session_id {
        SessionRoute::Control
    } else if session_id == FILE_TRANSFER_SESSION_ID {
        SessionRoute::FileTransfer
    } else {
        SessionRoute::ExternalAccessory
    }
}

/// Whether a keepalive is due: more time than the interval has passed
/// since the last packet or keepalive.
pub fn keepalive_due(elapsed_ns: u64, interval_secs: u64) -> (r: bool)
    ensures
        r == (elapsed_ns > interval_secs * 1_000_000_000),
{
    (elapsed_ns as u128) > (interval_secs as u128) * 1_000_000_000
}

/// A framed control message reads back as a control message with its id
/// and its whole length, unless the length does not fit in 16 bits.
pub proof fn lemma_control_message_reads_back(msg_id: u16, params: Seq<u8>)
    requires
        params.len() + 6 <= 65535,
    ensures
        control_header(control_message(msg_id, params)) == Some((msg_id, params.len() + 6 as int)),
        control_message(msg_id, params).len() == params.len() + 6,
        control_message(msg_id, params).subrange(6, params.len() + 6 as int) == params,
{
    let m = control_message(msg_id, params);
    let n = (params.len() + 6) as int;
    assert((2 + params.len()) % 65536 == 2 + params.len());
    lemma_be16_reads_back(n);
    lemma_be16_reads_back(msg_id as int);
    assert(m[2] == be16(n)[0] && m[3] == be16(n)[1]);
    assert(m[4] == be16(msg_id as int)[0] && m[5] == be16(msg_id as int)[1]);
    assert(m.subrange(6, n) =~= params);
}

/// A session start whose parameters begin with a parameter header of id 0
/// and hold at least one byte after it names the session by that byte,
/// whatever parameters follow; it starts the NowPlaying updates and the
/// media remote exactly where they are enabled and not yet running.
pub proof fn lemma_session_start_names_its_session(
    params: Seq<u8>,
    enable_now_playing: bool,
    now_playing_active: bool,
    enable_hid: bool,
    hid_started: bool,
    r: ControlAction,
)
    requires
        params.len() >= 5,
        params[2] == 0 && params[3] == 0,
        params.len() + 6 <= 65535,
        control_decision(
            control_message(EA_SESSION_STARTED, params),
            enable_now_playing,
            now_playing_active,
            enable_hid,
            hid_started,
            r,
        ),
    ensures
        r == (ControlAction::EaSessionStarted {
            session_id: params[4],
            start_now_playing: enable_now_playing && !now_playing_active,
            start_hid: enable_hid && !hid_started,
        }),
{
    lemma_control_message_reads_back(EA_SESSION_STARTED, params);
}

/// A session start whose parameters are too short to hold a session byte,
/// or whose first parameter is not the session parameter (id 0), starts no
/// session.
pub proof fn lemma_session_start_without_session_byte(
    params: Seq<u8>,
    enable_now_playing: bool,
    now_playing_active: bool,
    enable_hid: bool,
    hid_started: bool,
    r: ControlAction,
)
    requires
        params.len() < 5 || params[2] != 0 || params[3] != 0,
        params.len() + 6 <= 65535,
        control_decision(
            control_message(EA_SESSION_STARTED, params),
            enable_now_playing,
            now_playing_active,
            enable_hid,
            hid_started,
            r,
        ),
    ensures
        r is EaSessionInvalid,
{
    lemma_control_message_reads_back(EA_SESSION_STARTED, params);
    if params.len() >= 5 && be16_value(params[2], params[3]) == 0 {
        assert(params[2] == 0 && params[3] == 0) by (nonlinear_arith)
            requires
                be16_value(params[2], params[3]) == 0,
        {
        }
    }
}

} // verus!
