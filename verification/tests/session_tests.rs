use iap2_rs::session::control::ControlSession;
use iap2_rs::session::ea::EaSessionManager;
use iap2_rs::session::hid::{command_bit, command_bit_for_state, pressed_report, HidRemote};
use iap2_rs::session::now_playing::NowPlayingParser;
use iap2_rs::types::{
    DeviceIdentification, HidCommand, HidComponent, HidConfig, HidFunction, NowPlayingConfig,
    PlaybackStatus, PowerConfig, RepeatMode, ShuffleMode,
};

fn be16(v: u16) -> [u8; 2] {
    v.to_be_bytes()
}

fn param(id: u16, data: &[u8]) -> Vec<u8> {
    let mut v = Vec::new();
    v.extend_from_slice(&be16((data.len() + 4) as u16));
    v.extend_from_slice(&be16(id));
    v.extend_from_slice(data);
    v
}

fn message(id: u16, params: &[u8]) -> Vec<u8> {
    let mut v = vec![0x40, 0x40];
    v.extend_from_slice(&be16((params.len() + 6) as u16));
    v.extend_from_slice(&be16(id));
    v.extend_from_slice(params);
    v
}

fn session() -> ControlSession {
    ControlSession::new(
        DeviceIdentification::default(),
        0x0A,
        NowPlayingConfig::default(),
        PowerConfig::default(),
    )
}

#[test]
fn keepalive_and_stop_messages_are_bare_headers() {
    let s = session();
    assert_eq!(s.keepalive_message().as_ref(), &[0x40, 0x40, 0x00, 0x06, 0x41, 0x57]);
    assert_eq!(s.stop_now_playing_message().as_ref(), &[0x40, 0x40, 0x00, 0x06, 0x50, 0x02]);
    assert_eq!(s.session_id(), 0x0A);
}

#[test]
fn ea_session_request_names_the_protocol() {
    let s = session();
    let mut params = param(0x0000, b"com.example.protocol\0");
    params.extend_from_slice(&param(0x0001, &[0x00]));
    assert_eq!(params.len(), 30);
    assert_eq!(s.ea_session_request_params(0x00), params);
    let msg = s.ea_session_request_message(0x00);
    assert_eq!(&msg[..6], &[0x40, 0x40, 0x00, 0x24, 0xEA, 0x02]);
    assert_eq!(msg.as_ref(), message(0xEA02, &params).as_slice());
}

#[test]
fn app_launch_request_carries_bundle_id_and_option() {
    let s = session();
    let mut params = param(0x0000, b"com.spotify.client\0");
    params.extend_from_slice(&[0x00, 0x05, 0x00, 0x01, 0x01]);
    assert_eq!(s.app_launch_params("com.spotify.client"), params);
    let msg = s.app_launch_message("com.spotify.client");
    assert_eq!(&msg[..6], &[0x40, 0x40, 0x00, 0x22, 0xEA, 0x02]);
    assert_eq!(msg.as_ref(), message(0xEA02, &params).as_slice());
}

#[test]
fn now_playing_request_groups_attributes() {
    let s = session();
    let media = [
        0x00, 0x04, 0x00, 0x01, 0x00, 0x04, 0x00, 0x0C, 0x00, 0x04, 0x00, 0x1A,
    ];
    let playback = [
        0x00, 0x04, 0x00, 0x00, 0x00, 0x04, 0x00, 0x05, 0x00, 0x04, 0x00, 0x06, 0x00, 0x04,
        0x00, 0x07,
    ];
    let mut params = param(0x0000, &media);
    params.extend_from_slice(&param(0x0001, &playback));
    assert_eq!(s.now_playing_params(), params);
    let msg = s.start_now_playing_message();
    assert_eq!(&msg[..6], &[0x40, 0x40, 0x00, 0x2A, 0x50, 0x00]);
}

#[test]
fn now_playing_request_leaves_out_empty_groups() {
    let config = NowPlayingConfig { media_item_attributes: vec![], playback_attributes: vec![0x0001] };
    let s = ControlSession::new(DeviceIdentification::default(), 0x0A, config, PowerConfig::default());
    assert_eq!(s.now_playing_params(), param(0x0001, &[0x00, 0x04, 0x00, 0x01]));
}

#[test]
fn identification_lists_every_field_in_order() {
    let identification = DeviceIdentification {
        name: "A".to_string(),
        model_identifier: "M".to_string(),
        manufacturer: "X".to_string(),
        serial_number: "1".to_string(),
        firmware_version: "2".to_string(),
        hardware_version: "3".to_string(),
        ea_protocol_name: "p".to_string(),
        bundle_seed_id: None,
        current_language: "en".to_string(),
        supported_languages: vec!["en".to_string()],
        hid_components: vec![HidComponent {
            id: 0x0001,
            name: "r".to_string(),
            function: HidFunction::MediaPlaybackRemote,
            extra_data: None,
        }],
        messages_sent: vec![0xEA02],
        messages_received: vec![],
    };
    let s = ControlSession::new(identification, 0x0A, NowPlayingConfig::default(), PowerConfig::default());
    let mut expected = Vec::new();
    expected.extend_from_slice(&param(0x0000, b"A\0"));
    expected.extend_from_slice(&param(0x0001, b"M\0"));
    expected.extend_from_slice(&param(0x0002, b"X\0"));
    expected.extend_from_slice(&param(0x0003, b"1\0"));
    expected.extend_from_slice(&param(0x0004, b"2\0"));
    expected.extend_from_slice(&param(0x0005, b"3\0"));
    expected.extend_from_slice(&param(0x0006, &[0xEA, 0x02]));
    expected.extend_from_slice(&param(0x0008, &[0x00]));
    expected.extend_from_slice(&param(0x0009, &[0x00, 0x00]));
    let mut ea = param(0x0000, &[0x00]);
    ea.extend_from_slice(&param(0x0001, b"p\0"));
    ea.extend_from_slice(&param(0x0002, &[0x01]));
    expected.extend_from_slice(&param(0x000A, &ea));
    expected.extend_from_slice(&param(0x000C, b"en\0"));
    expected.extend_from_slice(&param(0x000D, b"en\0"));
    let mut hid = param(0x0000, &[0x00, 0x01]);
    hid.extend_from_slice(&param(0x0001, b"r\0"));
    hid.extend_from_slice(&param(0x0002, &[0x01]));
    expected.extend_from_slice(&param(0x0011, &hid));
    assert_eq!(expected.len(), 108);
    assert_eq!(s.identification_params(), expected);
    let msg = s.identification_message();
    assert_eq!(&msg[..6], &[0x40, 0x40, 0x00, 0x72, 0x1D, 0x01]);
    assert_eq!(msg.as_ref(), message(0x1D01, &expected).as_slice());
}

#[test]
fn identification_declares_later_hid_components_and_extras() {
    let mut identification = DeviceIdentification::default();
    identification.bundle_seed_id = Some("SEED".to_string());
    identification.supported_languages = vec![];
    identification.messages_sent = vec![];
    identification.messages_received = vec![];
    identification.hid_components = vec![
        HidComponent { id: 1, name: "a".to_string(), function: HidFunction::NoFunction, extra_data: None },
        HidComponent {
            id: 2,
            name: "b".to_string(),
            function: HidFunction::Custom(0x07),
            extra_data: Some(vec![0xAB]),
        },
    ];
    let power = PowerConfig { source_type: 0x02, max_current_ma: 0x01F4 };
    let s = ControlSession::new(identification, 0x0A, NowPlayingConfig::default(), power);
    let params = s.identification_params();
    let seed = param(0x000B, b"SEED\0");
    assert!(params.windows(seed.len()).any(|w| w == seed.as_slice()));
    assert!(params.windows(5).any(|w| w == [0x00, 0x05, 0x00, 0x08, 0x02]));
    assert!(params.windows(6).any(|w| w == [0x00, 0x06, 0x00, 0x09, 0x01, 0xF4]));
    let mut first = param(0x0000, &[0x00, 0x01]);
    first.extend_from_slice(&param(0x0001, b"a\0"));
    first.extend_from_slice(&param(0x0002, &[]));
    let mut second = param(0x0000, &[0x00, 0x02]);
    second.extend_from_slice(&param(0x0001, b"b\0"));
    second.extend_from_slice(&param(0x0002, &[0x07]));
    second.extend_from_slice(&param(0x0003, &[0xAB]));
    let mut tail = param(0x0011, &first);
    tail.extend_from_slice(&param(0x0012, &second));
    assert!(params.ends_with(&tail));
}

#[test]
fn hid_remote_messages() {
    let mut remote = HidRemote::new(0x0A, HidConfig::default());
    assert!(!remote.is_started());
    assert_eq!(remote.control_session_id(), 0x0A);
    let start = remote.start_message();
    assert_eq!(&start[..6], &[0x40, 0x40, 0x00, 0x3D, 0x68, 0x00]);
    assert_eq!(
        &start[6..24],
        &[
            0x00, 0x06, 0x00, 0x00, 0x14, 0xE9, 0x00, 0x06, 0x00, 0x01, 0x18, 0xD1, 0x00, 0x06,
            0x00, 0x02, 0x4E, 0x26
        ]
    );
    assert_eq!(&start[24..28], &[0x00, 0x25, 0x00, 0x04]);
    assert_eq!(start.len(), 61);
    remote.mark_started();
    assert!(remote.is_started());
    assert_eq!(
        remote.stop_message().as_ref(),
        &[0x40, 0x40, 0x00, 0x0C, 0x68, 0x03, 0x00, 0x06, 0x00, 0x00, 0x14, 0xE9]
    );
    remote.mark_stopped();
    assert!(!remote.is_started());
    assert_eq!(
        remote.report_message(&[0x01]).as_ref(),
        &[
            0x40, 0x40, 0x00, 0x11, 0x68, 0x02, 0x00, 0x06, 0x00, 0x00, 0x14, 0xE9, 0x00, 0x05,
            0x00, 0x01, 0x01
        ]
    );
}

#[test]
fn hid_buttons_map_to_report_bits() {
    assert_eq!(command_bit(HidCommand::Play), 0);
    assert_eq!(command_bit(HidCommand::Pause), 1);
    assert_eq!(command_bit(HidCommand::PlayPause), 0);
    assert_eq!(command_bit(HidCommand::Next), 2);
    assert_eq!(command_bit(HidCommand::Previous), 3);
    assert_eq!(command_bit(HidCommand::Shuffle), 4);
    assert_eq!(command_bit(HidCommand::Repeat), 5);
    assert_eq!(command_bit(HidCommand::VolumeUp), 6);
    assert_eq!(command_bit(HidCommand::VolumeDown), 7);
    assert_eq!(command_bit_for_state(HidCommand::PlayPause, true), 1);
    assert_eq!(command_bit_for_state(HidCommand::PlayPause, false), 0);
    assert_eq!(command_bit_for_state(HidCommand::Next, true), 2);
    assert_eq!(pressed_report(0), 0x01);
    assert_eq!(pressed_report(3), 0x08);
    assert_eq!(pressed_report(7), 0x80);
}

#[test]
fn ea_session_opens_on_first_data() {
    let mut m = EaSessionManager::new();
    assert!(m.handle_session_started(3, "com.usenocturne.daemon".to_string()).is_ok());
    assert!(!m.has_session(0x05));
    let d = m.handle_incoming_data(0x05, &[0x12, 0x34, 0xAA, 0xBB]);
    assert_eq!(d.new_session.as_deref(), Some("com.usenocturne.daemon"));
    assert_eq!(d.data, Some(vec![0xAA, 0xBB]));
    assert!(m.has_session(0x05));
    assert_eq!(m.transfer_id(0x05), 0x1234);
    assert_eq!(m.outgoing_datagram(0x05, &[0x01]).as_ref(), &[0x12, 0x34, 0x01]);
    let again = m.handle_incoming_data(0x05, &[0x00, 0x07, 0xCC]);
    assert!(again.new_session.is_none());
    assert_eq!(again.data, Some(vec![0xCC]));
    assert_eq!(m.outgoing_datagram(0x05, &[]).as_ref(), &[0x00, 0x07]);
}

#[test]
fn ea_data_without_pending_session_is_not_delivered() {
    let mut m = EaSessionManager::new();
    let d = m.handle_incoming_data(0x06, &[0x42]);
    assert!(d.new_session.is_none());
    assert!(d.data.is_none());
    assert_eq!(m.transfer_id(0x06), 0x0000);
    assert!(m.handle_incoming_data(0x06, &[]).data.is_none());
    assert_eq!(m.outgoing_datagram(0x09, &[0x01, 0x02]).as_ref(), &[0x00, 0x00, 0x01, 0x02]);
}

#[test]
fn ea_one_byte_datagram_has_transfer_id_zero() {
    let mut m = EaSessionManager::new();
    m.handle_session_started(0, "p".to_string()).unwrap();
    let d = m.handle_incoming_data(0x07, &[0x42]);
    assert_eq!(d.data, Some(vec![0x42]));
    assert_eq!(m.transfer_id(0x07), 0);
}

#[test]
fn ea_stopped_and_closed_sessions() {
    let mut m = EaSessionManager::new();
    m.handle_session_started(0, "p".to_string()).unwrap();
    m.handle_incoming_data(0x08, &[0x00, 0x01, 0x02]);
    m.handle_session_started(0, "q".to_string()).unwrap();
    m.handle_incoming_data(0x03, &[0x00, 0x02, 0x02]);
    assert_eq!(m.active_sessions(), vec![0x03, 0x08]);
    m.close_channel(0x08);
    assert!(m.handle_incoming_data(0x08, &[0x00, 0x01, 0x05]).data.is_none());
    assert!(m.has_session(0x08));
    m.handle_session_stopped(0x08);
    assert!(!m.has_session(0x08));
    assert_eq!(m.transfer_id(0x08), 0);
    assert_eq!(m.active_sessions(), vec![0x03]);
}

fn attribute(id: u16, data: &[u8]) -> Vec<u8> {
    param(id, data)
}

#[test]
fn now_playing_update_reads_media_item_and_playback() {
    let mut media = attribute(0x0001, b"Song\0");
    media.extend_from_slice(&attribute(0x000C, b"Artist"));
    media.extend_from_slice(&attribute(0x001A, b"Album\0junk"));
    media.extend_from_slice(&attribute(0x0004, &[0x00, 0x03, 0x0D, 0x40]));
    let mut playback = attribute(0x0000, &[0x01]);
    playback.extend_from_slice(&attribute(0x0001, &[0x00, 0x00, 0x03, 0xE8]));
    playback.extend_from_slice(&attribute(0x0005, &[0x02]));
    playback.extend_from_slice(&attribute(0x0006, &[0x01]));
    playback.extend_from_slice(&attribute(0x0007, b"Music\0"));
    let mut update = param(0x0000, &media);
    update.extend_from_slice(&param(0x0001, &playback));
    let info = NowPlayingParser::parse(&update).unwrap();
    let item = info.media_item.unwrap();
    assert_eq!(item.title.as_deref(), Some("Song"));
    assert_eq!(item.artist.as_deref(), Some("Artist"));
    assert_eq!(item.album.as_deref(), Some("Album"));
    assert_eq!(item.duration_ms, Some(200_000));
    let p = info.playback.unwrap();
    assert_eq!(p.status, Some(PlaybackStatus::Playing));
    assert_eq!(p.elapsed_ms, Some(1000));
    assert_eq!(p.shuffle_mode, Some(ShuffleMode::Albums));
    assert_eq!(p.repeat_mode, Some(RepeatMode::One));
    assert_eq!(p.app_name.as_deref(), Some("Music"));
}

#[test]
fn now_playing_update_without_known_attributes_is_nothing() {
    assert!(NowPlayingParser::parse(&[]).is_none());
    let unknown = param(0x0005, &[0x01, 0x02]);
    assert!(NowPlayingParser::parse(&unknown).is_none());
    let blank_title = param(0x0000, &attribute(0x0001, b"  \0"));
    assert!(NowPlayingParser::parse(&blank_title).is_none());
}

#[test]
fn later_attribute_overrides_earlier_one() {
    let mut media = attribute(0x0001, b"First");
    media.extend_from_slice(&attribute(0x0001, b"Second"));
    let item = NowPlayingParser::parse_media_item_group(&media).unwrap();
    assert_eq!(item.title.as_deref(), Some("Second"));
}

#[test]
fn parameter_reader_reads_back_written_parameters() {
    let mut data = param(0x0042, &[1, 2, 3]);
    data.extend_from_slice(&param(0x0007, &[]));
    data.extend_from_slice(&[0x00, 0x03, 0x00]);
    let ps = NowPlayingParser::parse_parameters(&data);
    assert_eq!(ps.len(), 2);
    assert_eq!(ps[0].0, 0x0042);
    assert_eq!(ps[0].1, &[1, 2, 3]);
    assert_eq!(ps[1].0, 0x0007);
    assert!(ps[1].1.is_empty());
}

#[test]
fn attribute_text_and_numbers() {
    assert_eq!(NowPlayingParser::parse_utf8(b"abc\0def").as_deref(), Some("abc"));
    assert!(NowPlayingParser::parse_utf8(b"\0abc").is_none());
    assert!(NowPlayingParser::parse_utf8(&[0xFF, 0xFE]).is_none());
    assert_eq!(NowPlayingParser::parse_utf8(&[0x61, 0xFF]).as_deref(), Some("a\u{FFFD}"));
    assert_eq!(NowPlayingParser::parse_u32(&[0x01, 0x02, 0x03, 0x04, 0x05]), Some(0x01020304));
    assert!(NowPlayingParser::parse_u32(&[0x01, 0x02, 0x03]).is_none());
}

#[test]
fn mode_names_and_values() {
    assert_eq!(PlaybackStatus::from_u8(3), PlaybackStatus::SeekingForward);
    assert_eq!(PlaybackStatus::from_u8(9), PlaybackStatus::Stopped);
    assert_eq!(PlaybackStatus::Paused.as_str(), "paused");
    assert_eq!(ShuffleMode::from_u8(1), ShuffleMode::Songs);
    assert_eq!(ShuffleMode::from_u8(7), ShuffleMode::Off);
    assert_eq!(RepeatMode::from_u8(2), RepeatMode::All);
    assert_eq!(RepeatMode::from_u8(3), RepeatMode::Off);
}

#[test]
fn ea_datagram_written_reads_back_with_its_transfer_id() {
    let mut sender = EaSessionManager::new();
    sender.handle_session_started(0, "p".to_string()).unwrap();
    sender.handle_incoming_data(0x04, &[0xBE, 0xEF, 0x01]);
    let written = sender.outgoing_datagram(0x04, &[0x10, 0x20]);
    let mut reader = EaSessionManager::new();
    reader.handle_session_started(0, "p".to_string()).unwrap();
    let d = reader.handle_incoming_data(0x04, &written);
    assert_eq!(reader.transfer_id(0x04), 0xBEEF);
    assert_eq!(d.data, Some(vec![0x10, 0x20]));
}

#[test]
fn hid_command_presses_then_releases() {
    let remote = HidRemote::new(0x0A, HidConfig::default());
    let (press, release) = remote.command_messages(HidCommand::Next);
    assert_eq!(
        press.as_ref(),
        &[
            0x40, 0x40, 0x00, 0x11, 0x68, 0x02, 0x00, 0x06, 0x00, 0x00, 0x14, 0xE9, 0x00, 0x05,
            0x00, 0x01, 0x04
        ]
    );
    assert_eq!(
        release.as_ref(),
        &[
            0x40, 0x40, 0x00, 0x11, 0x68, 0x02, 0x00, 0x06, 0x00, 0x00, 0x14, 0xE9, 0x00, 0x05,
            0x00, 0x01, 0x00
        ]
    );
    let (press, _) = remote.command_messages(HidCommand::VolumeDown);
    assert_eq!(press[16], 0x80);
    let (press, _) = remote.command_messages(HidCommand::PlayPause);
    assert_eq!(press[16], 0x01);
}

#[test]
fn hid_play_pause_follows_the_playback_state() {
    let remote = HidRemote::new(0x0A, HidConfig::default());
    let (press, release) = remote.command_messages_for_state(HidCommand::PlayPause, true);
    assert_eq!(press[16], 0x02);
    assert_eq!(release[16], 0x00);
    let (press, _) = remote.command_messages_for_state(HidCommand::PlayPause, false);
    assert_eq!(press[16], 0x01);
    let plain = remote.command_messages(HidCommand::Shuffle);
    let with_state = remote.command_messages_for_state(HidCommand::Shuffle, true);
    assert_eq!(plain, with_state);
    assert_eq!(with_state.0[16], 0x10);
}

#[test]
fn decoded_text_drops_only_white_space_or_replacement_text() {
    assert_eq!(NowPlayingParser::decoded_text(" Song ".to_string()), Some(" Song ".to_string()));
    assert_eq!(NowPlayingParser::decoded_text("\t\n \u{A0}\u{2003}\u{3000}".to_string()), None);
    assert_eq!(NowPlayingParser::decoded_text("\u{FFFD}\u{FFFD}".to_string()), None);
    assert_eq!(NowPlayingParser::decoded_text("\u{200B}".to_string()), Some("\u{200B}".to_string()));
    assert_eq!(NowPlayingParser::decoded_text(String::new()), None);
}
