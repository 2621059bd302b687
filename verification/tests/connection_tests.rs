use iap2_rs::connection::{
    control_action, keepalive_due, parse_control_header, route, AuthAction, AuthTracker,
    ControlAction, ControlFlow, SessionRoute,
};
use iap2_rs::session::control::ControlSession;
use iap2_rs::types::{DeviceIdentification, NowPlayingConfig, PowerConfig};

fn message(id: u16, params: &[u8]) -> Vec<u8> {
    let mut v = vec![0x40, 0x40];
    v.extend_from_slice(&((params.len() + 6) as u16).to_be_bytes());
    v.extend_from_slice(&id.to_be_bytes());
    v.extend_from_slice(params);
    v
}

#[test]
fn control_header_needs_start_bytes_and_a_fitting_length() {
    let h = parse_control_header(&[0x40, 0x40, 0x00, 0x06, 0x1D, 0x00]).unwrap();
    assert_eq!(h.msg_id, 0x1D00);
    assert_eq!(h.msg_len, 6);
    assert!(parse_control_header(&[0x40, 0x40, 0x00, 0x06, 0x1D]).is_none());
    assert!(parse_control_header(&[0x40, 0x41, 0x00, 0x06, 0x1D, 0x00]).is_none());
    assert!(parse_control_header(&[0x40, 0x40, 0x00, 0x07, 0x1D, 0x00]).is_none());
    assert!(parse_control_header(&[0x40, 0x40, 0x00, 0x05, 0x1D, 0x00]).is_none());
    let h = parse_control_header(&[0x40, 0x40, 0x00, 0x06, 0x1D, 0x00, 0xFF]).unwrap();
    assert_eq!(h.msg_len, 6);
}

#[test]
fn framed_message_reads_back() {
    let s = ControlSession::new(
        DeviceIdentification::default(),
        0x0A,
        NowPlayingConfig::default(),
        PowerConfig::default(),
    );
    let msg = s.ea_session_request_message(0x03);
    let h = parse_control_header(&msg).unwrap();
    assert_eq!(h.msg_id, 0xEA02);
    assert_eq!(h.msg_len, msg.len());
}

#[test]
fn authentication_follows_the_device() {
    let mut t = AuthTracker::new();
    match t.on_packet(Some(0x0B), &message(0xAA00, &[])) {
        AuthAction::SendCertificate { session_id } => assert_eq!(session_id, 0x0B),
        _ => panic!("expected a certificate request"),
    }
    let challenge = message(0xAA02, &[0x00, 0x24, 0x00, 0x00, 1, 2, 3]);
    match t.on_packet(Some(0x0C), &challenge) {
        AuthAction::AnswerChallenge { session_id, params_end } => {
            assert_eq!(session_id, 0x0B);
            assert_eq!(params_end, challenge.len());
        }
        _ => panic!("expected a challenge"),
    }
    assert!(matches!(t.on_packet(None, &message(0x1234, &[])), AuthAction::Unhandled { msg_id: 0x1234 }));
    assert!(matches!(t.on_packet(None, &[0x40, 0x40]), AuthAction::Ignore));
    assert!(matches!(t.on_packet(None, &message(0xAA04, &[])), AuthAction::Failed));
    match t.on_packet(None, &message(0xAA05, &[])) {
        AuthAction::Succeeded { session_id } => assert_eq!(session_id, 0x0B),
        _ => panic!("expected success"),
    }
}

#[test]
fn authentication_without_a_named_session_uses_the_default() {
    let mut t = AuthTracker::new();
    match t.on_packet(None, &message(0xAA05, &[])) {
        AuthAction::Succeeded { session_id } => assert_eq!(session_id, 0x0A),
        _ => panic!("expected success"),
    }
}

#[test]
fn control_messages_decide_the_next_step() {
    assert!(matches!(control_action(&message(0x1D00, &[]), true, false, true, false), ControlAction::SendIdentification));
    assert!(matches!(control_action(&message(0x1D02, &[]), true, false, true, false), ControlAction::IdentificationAccepted));
    assert!(matches!(control_action(&message(0x1D03, &[]), true, false, true, false), ControlAction::IdentificationRejected));
    assert!(matches!(control_action(&message(0x4158, &[]), true, false, true, false), ControlAction::StatusUpdate));
    assert!(matches!(control_action(&message(0x9999, &[]), true, false, true, false), ControlAction::Unhandled { msg_id: 0x9999 }));
    assert!(matches!(control_action(&[0x40, 0x40, 0x00], true, false, true, false), ControlAction::Ignore));
}

#[test]
fn ea_session_start_names_the_session_and_what_to_start() {
    let start = message(0xEA00, &[0x00, 0x05, 0x00, 0x00, 0x07]);
    match control_action(&start, true, false, true, false) {
        ControlAction::EaSessionStarted { session_id, start_now_playing, start_hid } => {
            assert_eq!(session_id, 0x07);
            assert!(start_now_playing);
            assert!(start_hid);
        }
        _ => panic!("expected a session start"),
    }
    match control_action(&start, true, true, false, false) {
        ControlAction::EaSessionStarted { start_now_playing, start_hid, .. } => {
            assert!(!start_now_playing);
            assert!(!start_hid);
        }
        _ => panic!("expected a session start"),
    }
    let wrong_id = message(0xEA00, &[0x00, 0x05, 0x00, 0x01, 0x07]);
    assert!(matches!(control_action(&wrong_id, true, false, true, false), ControlAction::EaSessionInvalid));
    let short = message(0xEA00, &[0x00, 0x05, 0x00, 0x00]);
    assert!(matches!(control_action(&short, true, false, true, false), ControlAction::EaSessionInvalid));
}

#[test]
fn ea_session_stop_reads_the_session_byte() {
    let stop = message(0xEA01, &[0x00, 0x05, 0x00, 0x00, 0x07]);
    match control_action(&stop, false, false, false, true) {
        ControlAction::EaSessionStopped { stopped, stop_hid } => {
            assert_eq!(stopped, Some(0x07));
            assert!(stop_hid);
        }
        _ => panic!("expected a session stop"),
    }
    match control_action(&message(0xEA01, &[]), false, false, false, false) {
        ControlAction::EaSessionStopped { stopped, stop_hid } => {
            assert_eq!(stopped, None);
            assert!(!stop_hid);
        }
        _ => panic!("expected a session stop"),
    }
}

#[test]
fn now_playing_update_is_parsed_from_its_parameters() {
    let item = [0x00, 0x09, 0x00, 0x01, b'S', b'o', b'n', b'g', 0x00];
    let mut params = vec![0x00, 0x0D, 0x00, 0x00];
    params.extend_from_slice(&item);
    match control_action(&message(0x5001, &params), false, false, false, false) {
        ControlAction::NowPlayingUpdate { update } => {
            let info = update.unwrap();
            assert_eq!(info.media_item.unwrap().title.as_deref(), Some("Song"));
        }
        _ => panic!("expected an update"),
    }
    match control_action(&message(0x5001, &[]), false, false, false, false) {
        ControlAction::NowPlayingUpdate { update } => assert!(update.is_none()),
        _ => panic!("expected an update"),
    }
}

#[test]
fn packets_are_routed_by_session() {
    assert!(matches!(route(0x0A, 0x0A), SessionRoute::Control));
    assert!(matches!(route(0x01, 0x0A), SessionRoute::FileTransfer));
    assert!(matches!(route(0x01, 0x01), SessionRoute::Control));
    assert!(matches!(route(0x05, 0x0A), SessionRoute::ExternalAccessory));
}

#[test]
fn keepalive_is_due_after_the_interval() {
    assert!(!keepalive_due(30_000_000_000, 30));
    assert!(keepalive_due(30_000_000_001, 30));
    assert!(!keepalive_due(0, 0));
    assert!(keepalive_due(1, 0));
}

#[test]
fn now_playing_updates_are_requested_once() {
    let start = message(0xEA00, &[0x00, 0x05, 0x00, 0x00, 0x07]);
    let mut flow = ControlFlow::new(true, true);
    assert!(!flow.now_playing_active());
    match flow.action(&start, false) {
        ControlAction::EaSessionStarted { session_id, start_now_playing, start_hid } => {
            assert_eq!(session_id, 0x07);
            assert!(start_now_playing);
            assert!(start_hid);
        }
        _ => panic!("expected a session start"),
    }
    flow.now_playing_started();
    assert!(flow.now_playing_active());
    match flow.action(&start, true) {
        ControlAction::EaSessionStarted { start_now_playing, start_hid, .. } => {
            assert!(!start_now_playing);
            assert!(!start_hid);
        }
        _ => panic!("expected a session start"),
    }
}

#[test]
fn now_playing_is_never_requested_when_disabled() {
    let start = message(0xEA00, &[0x00, 0x05, 0x00, 0x00, 0x03]);
    let flow = ControlFlow::new(false, false);
    match flow.action(&start, false) {
        ControlAction::EaSessionStarted { start_now_playing, start_hid, .. } => {
            assert!(!start_now_playing);
            assert!(!start_hid);
        }
        _ => panic!("expected a session start"),
    }
}
