//! iAP2 (iPod Accessory Protocol 2) link layer and session logic for MFi
//! accessories, with the framing, sequencing and message rules proved in Verus.

pub mod auth;
pub mod buffer;
pub mod connection;
pub mod error;
pub mod link;
pub mod mfi;
pub mod negotiation;
pub mod packet;
pub mod session;
pub mod text;
pub mod types;
pub mod wire;

pub use connection::Iap2Config;
pub use error::{Iap2Error, Result};
pub use mfi::{MfiAuthProvider, MockMfiProvider};
pub use types::{
    ConnectionConfig, ConnectionEvent, DeviceIdentification, FileTransferConfig, HidCommand,
    HidComponent, HidConfig, HidFunction, LinkConfig, NowPlayingConfig, NowPlayingInfo,
    NowPlayingMediaItem, NowPlayingPlayback, PlaybackStatus, PowerConfig, RepeatMode, ShuffleMode,
};
