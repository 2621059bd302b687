//! Configuration, identification and event types of the iAP2 stack.

use vstd::prelude::*;

use crate::text::owned;

verus! {

broadcast use vstd::string::group_string_axioms;

/// Link layer timing configuration.
#[derive(Debug, Clone)]
pub struct LinkConfig {
    pub max_retries: u32,
    pub timeout_ms: u64,
    pub detect_to_syn_delay_ms: u64,
    pub syn_retry_delay_ms: u64,
    pub iap1_probe_timeout_ms: u64,
    pub initial_seq: u8,
}

impl Default for LinkConfig {
    fn default() -> (r: Self)
        ensures
            r.max_retries == 30,
            r.timeout_ms == 1500,
            r.detect_to_syn_delay_ms == 100,
            r.syn_retry_delay_ms == 150,
            r.iap1_probe_timeout_ms == 150,
            r.initial_seq == 0x9D,
    {
        LinkConfig {
            max_retries: 30,
            timeout_ms: 1500,
            detect_to_syn_delay_ms: 100,
            syn_retry_delay_ms: 150,
            iap1_probe_timeout_ms: 150,
            initial_seq: 0x9D,
        }
    }
}

/// The NowPlaying attributes to request.
#[derive(Debug, Clone)]
pub struct NowPlayingConfig {
    /// MediaItem attribute IDs to request (e.g., 0x01=Title, 0x04=Duration, 0x0C=Artist)
    pub media_item_attributes: Vec<u16>,
    /// Playback attribute IDs to request (e.g., 0x00=Status, 0x05=Shuffle)
    pub playback_attributes: Vec<u16>,
}

impl Default for NowPlayingConfig {
    fn default() -> (r: Self)
        ensures
            r.media_item_attributes@ == seq![0x0001u16, 0x000C, 0x001A],
            r.playback_attributes@ == seq![0x0000u16, 0x0005, 0x0006, 0x0007],
    {
        let r = NowPlayingConfig {
            media_item_attributes: vec![0x0001, 0x000C, 0x001A],
            playback_attributes: vec![0x0000, 0x0005, 0x0006, 0x0007],
        };
        assert(r.media_item_attributes@ =~= seq![0x0001u16, 0x000C, 0x001A]);
        assert(r.playback_attributes@ =~= seq![0x0000u16, 0x0005, 0x0006, 0x0007]);
        r
    }
}

/// The USB HID report descriptor of a consumer-control media remote with
/// eight one-bit buttons.
pub open spec fn media_remote_descriptor() -> Seq<u8> {
    seq![
        0x05u8, 0x0C, 0x09, 0x01, 0xA1, 0x01, 0x15, 0x00, 0x25, 0x01, 0x75, 0x01, 0x95, 0x08,
        0x09, 0xB0, 0x09, 0xB1, 0x09, 0xB5, 0x09, 0xB6, 0x09, 0xB9, 0x09, 0xBC, 0x09, 0xE9,
        0x09, 0xEA, 0x81, 0x02, 0xC0,
    ]
}

/// HID configuration.
#[derive(Debug, Clone)]
pub struct HidConfig {
    pub component_id: u16,
    pub vendor_id: u16,
    pub product_id: u16,
    pub report_descriptor: Vec<u8>,
}

impl Default for HidConfig {
    fn default() -> (r: Self)
        ensures
            r.component_id == 0x14E9,
            r.vendor_id == 0x18D1,
            r.product_id == 0x4E26,
            r.report_descriptor@ == media_remote_descriptor(),
    {
        let r = HidConfig {
            component_id: 0x14E9,
            vendor_id: 0x18D1,
            product_id: 0x4E26,
            report_descriptor: vec![
                0x05, 0x0C, 0x09, 0x01, 0xA1, 0x01, 0x15, 0x00, 0x25, 0x01, 0x75, 0x01, 0x95, 0x08,
                0x09, 0xB0, 0x09, 0xB1, 0x09, 0xB5, 0x09, 0xB6, 0x09, 0xB9, 0x09, 0xBC, 0x09, 0xE9,
                0x09, 0xEA, 0x81, 0x02, 0xC0,
            ],
        };
        assert(r.report_descriptor@ =~= media_remote_descriptor());
        r
    }
}

/// File transfer timing configuration.
#[derive(Debug, Clone)]
pub struct FileTransferConfig {
    pub transfer_timeout_secs: u64,
    pub stale_packet_grace_ms: u64,
}

impl Default for FileTransferConfig {
    fn default() -> (r: Self)
        ensures
            r.transfer_timeout_secs == 30,
            r.stale_packet_grace_ms == 1000,
    {
        FileTransferConfig { transfer_timeout_secs: 30, stale_packet_grace_ms: 1000 }
    }
}

/// Connection-level timing configuration.
#[derive(Debug, Clone)]
pub struct ConnectionConfig {
    pub keepalive_interval_secs: u64,
    pub challenge_timeout_ms: u64,
    pub ea_session_poll_secs: u64,
    pub cleanup_interval_secs: u64,
}

impl Default for ConnectionConfig {
    fn default() -> (r: Self)
        ensures
            r.keepalive_interval_secs == 30,
            r.challenge_timeout_ms == 1800,
            r.ea_session_poll_secs == 60,
            r.cleanup_interval_secs == 2,
    {
        ConnectionConfig {
            keepalive_interval_secs: 30,
            challenge_timeout_ms: 1800,
            ea_session_poll_secs: 60,
            cleanup_interval_secs: 2,
        }
    }
}

/// Power configuration for identification.
#[derive(Debug, Clone)]
pub struct PowerConfig {
    pub source_type: u8,
    pub max_current_ma: u16,
}

impl Default for PowerConfig {
    fn default() -> (r: Self)
        ensures
            r.source_type == 0,
            r.max_current_ma == 0,
    {
        PowerConfig { source_type: 0, max_current_ma: 0 }
    }
}

/// What the accessory tells the device about itself.
#[derive(Debug, Clone)]
pub struct DeviceIdentification {
    pub name: String,
    pub model_identifier: String,
    pub manufacturer: String,
    pub serial_number: String,
    pub firmware_version: String,
    pub hardware_version: String,
    pub ea_protocol_name: String,
    pub bundle_seed_id: Option<String>,
    pub current_language: String,
    pub supported_languages: Vec<String>,
    pub hid_components: Vec<HidComponent>,
    pub messages_sent: Vec<u16>,
    pub messages_received: Vec<u16>,
}

impl Default for DeviceIdentification {
    fn default() -> (r: Self)
        ensures
            r.name@ == "iAP2 Accessory"@,
            r.model_identifier@ == "GENERIC"@,
            r.manufacturer@ == "Unknown"@,
            r.serial_number@ == "00000000"@,
            r.firmware_version@ == "1.0.0"@,
            r.hardware_version@ == "1"@,
            r.ea_protocol_name@ == "com.example.protocol"@,
            r.bundle_seed_id is None,
            r.current_language@ == "en"@,
            r.supported_languages@.len() == 1,
            r.supported_languages@[0]@ == "en"@,
            r.hid_components@.len() == 0,
            r.messages_sent@ == seq![0xEA02u16, 0xEA03],
            r.messages_received@ == seq![0xEA00u16, 0xEA01],
    {
        let r = DeviceIdentification {
            name: owned("iAP2 Accessory"),
            model_identifier: owned("GENERIC"),
            manufacturer: owned("Unknown"),
            serial_number: owned("00000000"),
            firmware_version: owned("1.0.0"),
            hardware_version: owned("1"),
            ea_protocol_name: owned("com.example.protocol"),
            bundle_seed_id: None,
            current_language: owned("en"),
            supported_languages: vec![owned("en")],
            hid_components: Vec::new(),
            messages_sent: vec![0xEA02, 0xEA03],
            messages_received: vec![0xEA00, 0xEA01],
        };
        assert(r.messages_sent@ =~= seq![0xEA02u16, 0xEA03]);
        assert(r.messages_received@ =~= seq![0xEA00u16, 0xEA01]);
        r
    }
}

/// A HID component that the accessory declares in its identification.
#[derive(Debug, Clone)]
pub struct HidComponent {
    pub id: u16,
    pub name: String,
    pub function: HidFunction,
    pub extra_data: Option<Vec<u8>>,
}

/// The function of a declared HID component.
#[derive(Debug, Clone, Copy, PartialEq, Eq, Structural)]
pub enum HidFunction {
    NoFunction,
    MediaPlaybackRemote,
    Custom(u8),
}

/// A media remote button press.
#[derive(Debug, Clone, Copy, PartialEq, Eq, Structural)]
pub enum HidCommand {
    Play,
    Pause,
    PlayPause,
    Next,
    Previous,
    Shuffle,
    Repeat,
    VolumeUp,
    VolumeDown,
}

/// An external accessory session that the device opened.
#[derive(Debug, Clone)]
pub struct SessionInfo {
    pub id: u8,
    pub protocol_id: u16,
    pub version: u8,
}

/// A NowPlaying update: the media item and playback groups, where present.
#[derive(Debug, Clone)]
pub struct NowPlayingInfo {
    pub media_item: Option<NowPlayingMediaItem>,
    pub playback: Option<NowPlayingPlayback>,
}

impl Default for NowPlayingInfo {
    fn default() -> (r: Self)
        ensures
            r.media_item is None,
            r.playback is None,
    {
        NowPlayingInfo { media_item: None, playback: None }
    }
}

/// The media item attributes of a NowPlaying update.
#[derive(Debug, Clone)]
pub struct NowPlayingMediaItem {
    pub title: Option<String>,
    pub artist: Option<String>,
    pub album: Option<String>,
    pub duration_ms: Option<u32>,
}

impl Default for NowPlayingMediaItem {
    fn default() -> (r: Self)
        ensures
            r.title is None,
            r.artist is None,
            r.album is None,
            r.duration_ms is None,
    {
        NowPlayingMediaItem { title: None, artist: None, album: None, duration_ms: None }
    }
}

/// The playback attributes of a NowPlaying update.
#[derive(Debug, Clone)]
pub struct NowPlayingPlayback {
    pub status: Option<PlaybackStatus>,
    pub elapsed_ms: Option<u32>,
    pub shuffle_mode: Option<ShuffleMode>,
    pub repeat_mode: Option<RepeatMode>,
    pub app_name: Option<String>,
}

impl Default for NowPlayingPlayback {
    fn default() -> (r: Self)
        ensures
            r.status is None,
            r.elapsed_ms is None,
            r.shuffle_mode is None,
            r.repeat_mode is None,
            r.app_name is None,
    {
        NowPlayingPlayback {
            status: None,
            elapsed_ms: None,
            shuffle_mode: None,
            repeat_mode: None,
            app_name: None,
        }
    }
}

#[derive(Debug, Clone, Copy, PartialEq, Eq, Structural)]
pub enum PlaybackStatus {
    Stopped,
    Playing,
    Paused,
    SeekingForward,
    SeekingBackward,
}

/// The playback status that a wire value names; unknown values read as stopped.
pub open spec fn playback_status_of(value: u8) -> PlaybackStatus {
    if value == 1 {
        PlaybackStatus::Playing
    } else if value == 2 {
        PlaybackStatus::Paused
    } else if value == 3 {
        PlaybackStatus::SeekingForward
    } else if value == 4 {
        PlaybackStatus::SeekingBackward
    } else {
        PlaybackStatus::Stopped
    }
}

/// The wire value of a playback status.
pub open spec fn playback_status_value(s: PlaybackStatus) -> u8 {
    match s {
        PlaybackStatus::Stopped => 0,
        PlaybackStatus::Playing => 1,
        PlaybackStatus::Paused => 2,
        PlaybackStatus::SeekingForward => 3,
        PlaybackStatus::SeekingBackward => 4,
    }
}

impl PlaybackStatus {
    pub fn from_u8(value: u8) -> (r: Self)
        ensures
            r == playback_status_of(value),
    {
        match value {
            0 => Self::Stopped,
            1 => Self::Playing,
            2 => Self::Paused,
            3 => Self::SeekingForward,
            4 => Self::SeekingBackward,
            _ => Self::Stopped,
        }
    }

    pub fn as_str(&self) -> (r: &'static str)
        ensures
            r@ == match *self {
                Self::Stopped => "stopped"@,
                Self::Playing => "playing"@,
                Self::Paused => "paused"@,
                Self::SeekingForward => "seekingForward"@,
                Self::SeekingBackward => "seekingBackward"@,
            },
    {
        match self {
            Self::Stopped => "stopped",
            Self::Playing => "playing",
            Self::Paused => "paused",
            Self::SeekingForward => "seekingForward",
            Self::SeekingBackward => "seekingBackward",
        }
    }
}

#[derive(Debug, Clone, Copy, PartialEq, Eq, Structural)]
pub enum ShuffleMode {
    Off,
    Songs,
    Albums,
}

/// The shuffle mode that a wire value names; unknown values read as off.
pub open spec fn shuffle_mode_of(value: u8) -> ShuffleMode {
    if value == 1 {
        ShuffleMode::Songs
    } else if value == 2 {
        ShuffleMode::Albums
    } else {
        ShuffleMode::Off
    }
}

/// The wire value of a shuffle mode.
pub open spec fn shuffle_mode_value(m: ShuffleMode) -> u8 {
    match m {
        ShuffleMode::Off => 0,
        ShuffleMode::Songs => 1,
        ShuffleMode::Albums => 2,
    }
}

impl ShuffleMode {
    pub fn from_u8(value: u8) -> (r: Self)
        ensures
            r == shuffle_mode_of(value),
    {
        match value {
            0 => Self::Off,
            1 => Self::Songs,
            2 => Self::Albums,
            _ => Self::Off,
        }
    }

    pub fn as_str(&self) -> (r: &'static str)
        ensures
            r@ == match *self {
                Self::Off => "off"@,
                Self::Songs => "songs"@,
                Self::Albums => "albums"@,
            },
    {
        match self {
            Self::Off => "off",
            Self::Songs => "songs",
            Self::Albums => "albums",
        }
    }
}

#[derive(Debug, Clone, Copy, PartialEq, Eq, Structural)]
pub enum RepeatMode {
    Off,
    One,
    All,
}

/// The repeat mode that a wire value names; unknown values read as off.
pub open spec fn repeat_mode_of(value: u8) -> RepeatMode {
    if value == 1 {
        RepeatMode::One
    } else if value == 2 {
        RepeatMode::All
    } else {
        RepeatMode::Off
    }
}

/// The wire value of a repeat mode.
pub open spec fn repeat_mode_value(m: RepeatMode) -> u8 {
    match m {
        RepeatMode::Off => 0,
        RepeatMode::One => 1,
        RepeatMode::All => 2,
    }
}

impl RepeatMode {
    pub fn from_u8(value: u8) -> (r: Self)
        ensures
            r == repeat_mode_of(value),
    {
        match value {
            0 => Self::Off,
            1 => Self::One,
            2 => Self::All,
            _ => Self::Off,
        }
    }

    pub fn as_str(&self) -> (r: &'static str)
        ensures
            r@ == match *self {
                Self::Off => "off"@,
                Self::One => "one"@,
                Self::All => "all"@,
            },
    {
        match self {
            Self::Off => "off",
            Self::One => "one",
            Self::All => "all",
        }
    }
}

/// Each mode read from its own wire value is that mode, so the wire values
/// of distinct modes differ.
pub proof fn lemma_mode_values_roundtrip(
    s: PlaybackStatus,
    sh: ShuffleMode,
    rp: RepeatMode,
)
    ensures
        playback_status_of(playback_status_value(s)) == s,
        shuffle_mode_of(shuffle_mode_value(sh)) == sh,
        repeat_mode_of(repeat_mode_value(rp)) == rp,
{
}

/// What happens on a connection, as its owner sees it.
#[derive(Debug, Clone)]
pub enum ConnectionEvent {
    LinkEstablished,
    AuthenticationStarted,
    AuthenticationSucceeded,
    AuthenticationFailed { reason: String },
    IdentificationAccepted,
    IdentificationRejected,
    EaSessionStarted { session_id: u8 },
    EaSessionStopped { session_id: u8 },
    NowPlayingUpdate { update: NowPlayingInfo },
    FileTransferComplete { transfer_id: u8, file_type: u16, data: bytes::Bytes },
    FileTransferCorrupted { transfer_id: u8 },
    HidRemoteStarted,
    HidRemoteStopped,
    Error { error: String },
    Disconnected,
}

} // verus!
