//! The media remote: a HID component whose button presses the device turns
//! into playback commands.

use vstd::prelude::*;

use crate::buffer::{bytes_from_vec, bytes_view};
use crate::types::{HidCommand, HidConfig};
use crate::wire::{be16, control_message, control_message_fits, frame_control_message, param, push_be16, push_param};

verus! {

/// StartHID.
pub const START_HID: u16 = 0x6800;

/// AccessoryHIDReport.
pub const HID_REPORT: u16 = 0x6802;

/// StopHID.
pub const STOP_HID: u16 = 0x6803;

/// The report bit of each button of the media remote.
pub open spec fn button_bit(command: HidCommand) -> u8 {
    match command {
        HidCommand::Play => 0,
        HidCommand::Pause => 1,
        HidCommand::PlayPause => 0,
        HidCommand::Next => 2,
        HidCommand::Previous => 3,
        HidCommand::Shuffle => 4,
        HidCommand::Repeat => 5,
        HidCommand::VolumeUp => 6,
        HidCommand::VolumeDown => 7,
    }
}

/// The report byte with only bit `bit` set.
pub open spec fn bit_mask(bit: u8) -> u8 {
    if bit == 0 {
        0x01
    } else if bit == 1 {
        0x02
    } else if bit == 2 {
        0x04
    } else if bit == 3 {
        0x08
    } else if bit == 4 {
        0x10
    } else if bit == 5 {
        0x20
    } else if bit == 6 {
        0x40
    } else {
        0x80
    }
}

/// The bit pressed for a command when the playback state is known: play/pause
/// pauses what plays and plays what does not.
pub open spec fn button_bit_for_state(command: HidCommand, is_playing: bool) -> u8 {
    match command {
        HidCommand::PlayPause => if is_playing {
            1
        } else {
            0
        },
        _ => button_bit(command),
    }
}

/// The parameters of StartHID: component id, vendor id, product id and the
/// report descriptor.
pub open spec fn start_params_of(config: HidConfig) -> Seq<u8> {
    param(0x0000, be16(config.component_id as int)) + param(0x0001, be16(config.vendor_id as int))
        + param(0x0002, be16(config.product_id as int)) + param(
        0x0004,
        config.report_descriptor@,
    )
}

/// The parameters of StopHID: the component id.
pub open spec fn stop_params_of(config: HidConfig) -> Seq<u8> {
    param(0x0000, be16(config.component_id as int))
}

/// The parameters of a HID report: the component id and the report.
pub open spec fn report_params_of(config: HidConfig, report: Seq<u8>) -> Seq<u8> {
    param(0x0000, be16(config.component_id as int)) + param(0x0001, report)
}

/// The report bit of a button.
pub fn command_bit(command: HidCommand) -> (r: u8)
    ensures
        r == button_bit(command),
{
    match command {
        HidCommand::Play => 0,
        HidCommand::Pause => 1,
        HidCommand::PlayPause => 0,
        HidCommand::Next => 2,
        HidCommand::Previous => 3,
        HidCommand::Shuffle => 4,
        HidCommand::Repeat => 5,
        HidCommand::VolumeUp => 6,
        HidCommand::VolumeDown => 7,
    }
}

/// The report bit of a button, with play/pause resolved by the playback state.
pub fn command_bit_for_state(command: HidCommand, is_playing: bool) -> (r: u8)
    ensures
        r == button_bit_for_state(command, is_playing),
{
    match command {
        HidCommand::PlayPause => if is_playing {
            1
        } else {
            0
        },
        _ => command_bit(command),
    }
}

/// The report of a pressed button: its bit set, all others clear.
pub fn pressed_report(bit: u8) -> (r: u8)
    requires
        bit < 8,
    ensures
        r == bit_mask(bit),
{
    let r: u8 = 1u8 << bit;
    assert(bit < 8 ==> (bit == 0 ==> r == 0x01) && (bit == 1 ==> r == 0x02) && (bit == 2 ==> r
        == 0x04) && (bit == 3 ==> r == 0x08) && (bit == 4 ==> r == 0x10) && (bit == 5 ==> r
        == 0x20) && (bit == 6 ==> r == 0x40) && (bit == 7 ==> r == 0x80)) by (bit_vector)
        requires
            r == 1u8 << bit,
    ;
    r
}

/// The media remote: whether StartHID was sent, the control session that
/// carries its messages, and its configuration.
pub struct HidRemote {
    started: bool,
    control_session_id: u8,
    config: HidConfig,
}

impl HidRemote {
    pub closed spec fn started(&self) -> bool {
        self.started
    }

    pub closed spec fn session(&self) -> u8 {
        self.control_session_id
    }

    pub closed spec fn config(&self) -> HidConfig {
        self.config
    }

    pub fn new(control_session_id: u8, config: HidConfig) -> (r: Self)
        ensures
            !r.started(),
            r.session() == control_session_id,
            r.config() == config,
    {
        HidRemote { started: false, control_session_id, config }
    }

    pub fn is_started(&self) -> (r: bool)
        ensures
            r == self.started(),
    {
        self.started
    }

    /// The id of the control session that carries the HID messages.
    pub fn control_session_id(&self) -> (r: u8)
        ensures
            r == self.session(),
    {
        self.control_session_id
    }

    /// The parameters of StartHID.
    pub fn start_params(&self) -> (r: Vec<u8>)
        ensures
            r@ == start_params_of(self.config()),
    {
        let mut body: Vec<u8> = Vec::new();
        self.push_component(&mut body);
        let mut vendor: Vec<u8> = Vec::new();
        push_be16(&mut vendor, self.config.vendor_id);
        push_param(&mut body, 0x0001, vendor.as_slice());
        let mut product: Vec<u8> = Vec::new();
        push_be16(&mut product, self.config.product_id);
        push_param(&mut body, 0x0002, product.as_slice());
        push_param(&mut body, 0x0004, self.config.report_descriptor.as_slice());
        assert(body@ =~= start_params_of(self.config()));
        body
    }

    /// StartHID for the configured component.
    pub fn start_message(&self) -> (r: bytes::Bytes)
        requires
            control_message_fits(start_params_of(self.config()).len() as int),
        ensures
            bytes_view(r) == control_message(START_HID, start_params_of(self.config())),
    {
        let params = self.start_params();
        bytes_from_vec(frame_control_message(START_HID, params.as_slice()))
    }

    /// What making sure the remote is started takes: StartHID when it was
    /// not sent yet, nothing when it was.
    pub fn ensure_started_message(&self) -> (r: Option<bytes::Bytes>)
        requires
            !self.started() ==> control_message_fits(start_params_of(self.config()).len() as int),
        ensures
            self.started() ==> r is None,
            !self.started() ==> r is Some && bytes_view(r->0) == control_message(
                START_HID,
                start_params_of(self.config()),
            ),
    {
        if self.started {
            None
        } else {
            Some(self.start_message())
        }
    }

    /// Records that StartHID went out.
    pub fn mark_started(&mut self)
        ensures
            final(self).started(),
            final(self).session() == old(self).session(),
            final(self).config() == old(self).config(),
    {
        self.started = true;
    }

    /// StopHID for the configured component.
    pub fn stop_message(&self) -> (r: bytes::Bytes)
        ensures
            bytes_view(r) == control_message(STOP_HID, stop_params_of(self.config())),
    {
        let mut body: Vec<u8> = Vec::new();
        self.push_component(&mut body);
        assert(body@ =~= stop_params_of(self.config()));
        bytes_from_vec(frame_control_message(STOP_HID, body.as_slice()))
    }

    /// Records that StopHID went out.
    pub fn mark_stopped(&mut self)
        ensures
            !final(self).started(),
            final(self).session() == old(self).session(),
            final(self).config() == old(self).config(),
    {
        self.started = false;
    }

    /// A HID report of the configured component.
    pub fn report_message(&self, report: &[u8]) -> (r: bytes::Bytes)
        requires
            control_message_fits(report_params_of(self.config(), report@).len() as int),
        ensures
            bytes_view(r) == control_message(HID_REPORT, report_params_of(self.config(), report@)),
    {
        let mut body: Vec<u8> = Vec::new();
        self.push_component(&mut body);
        push_param(&mut body, 0x0001, report);
        assert(body@ =~= report_params_of(self.config(), report@));
        bytes_from_vec(frame_control_message(HID_REPORT, body.as_slice()))
    }

    /// The messages of a button press: the report with the command's bit
    /// set, then the release report with no bit set.
    pub fn command_messages(&self, command: HidCommand) -> (r: (bytes::Bytes, bytes::Bytes))
        ensures
            bytes_view(r.0) == control_message(
                HID_REPORT,
                report_params_of(self.config(), seq![bit_mask(button_bit(command))]),
            ),
            bytes_view(r.1) == control_message(
                HID_REPORT,
                report_params_of(self.config(), seq![0u8]),
            ),
    {
        self.press_and_release(command_bit(command))
    }

    /// The messages of a button press where play/pause pauses what plays
    /// and plays what does not; every other command presses as in
    /// `command_messages`.
    pub fn command_messages_for_state(&self, command: HidCommand, is_playing: bool) -> (r: (
        bytes::Bytes,
        bytes::Bytes,
    ))
        ensures
            bytes_view(r.0) == control_message(
                HID_REPORT,
                report_params_of(self.config(), seq![bit_mask(button_bit_for_state(command, is_playing))]),
            ),
            bytes_view(r.1) == control_message(
                HID_REPORT,
                report_params_of(self.config(), seq![0u8]),
            ),
            !(command is PlayPause) ==> bytes_view(r.0) == control_message(
                HID_REPORT,
                report_params_of(self.config(), seq![bit_mask(button_bit(command))]),
            ),
    {
        self.press_and_release(command_bit_for_state(command, is_playing))
    }

    /// The press report for `bit`, then the release report.
    fn press_and_release(&self, bit: u8) -> (r: (bytes::Bytes, bytes::Bytes))
        requires
            bit < 8,
        ensures
            bytes_view(r.0) == control_message(
                HID_REPORT,
                report_params_of(self.config(), seq![bit_mask(bit)]),
            ),
            bytes_view(r.1) == control_message(
                HID_REPORT,
                report_params_of(self.config(), seq![0u8]),
            ),
    {
        let pressed: Vec<u8> = vec![pressed_report(bit)];
        let released: Vec<u8> = vec![0u8];
        assert(pressed@ =~= seq![bit_mask(bit)]);
        assert(released@ =~= seq![0u8]);
        assert(report_params_of(self.config(), pressed@).len() == 11);
        assert(report_params_of(self.config(), released@).len() == 11);
        (self.report_message(pressed.as_slice()), self.report_message(released.as_slice()))
    }

    /// Appends the component id parameter.
    fn push_component(&self, buf: &mut Vec<u8>)
        ensures
            final(buf)@ == old(buf)@ + param(0x0000, be16(self.config().component_id as int)),
    {
        let mut id: Vec<u8> = Vec::new();
        push_be16(&mut id, self.config.component_id);
        push_param(buf, 0x0000, id.as_slice());
    }
}

} // verus!
