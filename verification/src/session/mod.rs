//! The sessions that run over the link: control, external accessory,
//! file transfer, HID and NowPlaying.

pub mod control;
pub mod ea;
pub mod file_transfer;
pub mod hid;
pub mod jpeg;
pub mod now_playing;

pub use control::ControlSession;
pub use ea::EaSessionManager;
pub use file_transfer::{FileTransferHandler, FileTransferOutcome};
pub use hid::HidRemote;
pub use now_playing::NowPlayingParser;

use vstd::prelude::*;

verus! {

/// The link session that carries control messages.
pub const CONTROL_SESSION_ID: u8 = 0x00;

/// The link session that carries file transfers.
pub const FILE_TRANSFER_SESSION_ID: u8 = 0x01;

} // verus!
