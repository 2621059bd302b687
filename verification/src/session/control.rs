//! The control session: the accessory's identification and the control
//! messages it sends to the device.

use vstd::prelude::*;

use crate::buffer::{bytes_from_vec, bytes_view};
use crate::session::now_playing::{lemma_param_reads_back, params};
use vstd::seq_lib::lemma_concat_associative;
use crate::types::{DeviceIdentification, HidComponent, HidFunction, NowPlayingConfig, PowerConfig};
use crate::wire::{
    be16, control_message, control_message_fits, cstr, cstr_bytes, frame_control_message, param,
    push_be16, push_param, push_u16_list, u16_list,
};

verus! {

/// IdentificationInformation.
pub const IDENTIFICATION_INFORMATION: u16 = 0x1D01;

/// StartExternalAccessoryProtocolSession, also used for RequestAppLaunch.
pub const START_EA_SESSION: u16 = 0xEA02;

/// StartNowPlayingUpdates.
pub const START_NOW_PLAYING_UPDATES: u16 = 0x5000;

/// StopNowPlayingUpdates.
pub const STOP_NOW_PLAYING_UPDATES: u16 = 0x5002;

/// RequestStatusUpdate, sent as a keepalive.
pub const REQUEST_STATUS_UPDATE: u16 = 0x4157;

/// A parameter holding a zero-terminated string.
pub open spec fn text_param(id: u16, s: Seq<char>) -> Seq<u8> {
    param(id, cstr(s))
}

/// A parameter holding a list of message ids, left out when the list is empty.
pub open spec fn id_list_param(id: u16, ids: Seq<u16>) -> Seq<u8> {
    if ids.len() == 0 {
        Seq::empty()
    } else {
        param(id, u16_list(ids))
    }
}

/// One SupportedLanguage parameter per language, in order.
pub open spec fn language_params(langs: Seq<String>) -> Seq<u8>
    decreases langs.len(),
{
    if langs.len() == 0 {
        Seq::empty()
    } else {
        language_params(langs.drop_last()) + text_param(0x000D, langs.last()@)
    }
}

/// The HIDComponentFunction sub-parameter.
pub open spec fn hid_function_param(f: HidFunction) -> Seq<u8> {
    match f {
        HidFunction::NoFunction => param(0x0002, Seq::empty()),
        HidFunction::MediaPlaybackRemote => param(0x0002, seq![0x01u8]),
        HidFunction::Custom(v) => param(0x0002, seq![v]),
    }
}

/// The optional sub-parameter carrying a component's extra data.
pub open spec fn hid_extra_param(extra: Option<Vec<u8>>) -> Seq<u8> {
    match extra {
        Some(d) => param(0x0003, d@),
        None => Seq::empty(),
    }
}

/// The declaration of one HID component: parameter 0x11 for the first
/// component and 0x12 for the others, holding its id, its name, its
/// function and, where present, its extra data.
pub open spec fn hid_component_param(first: bool, c: HidComponent) -> Seq<u8> {
    param(
        if first { 0x0011u16 } else { 0x0012u16 },
        param(0x0000, be16(c.id as int)) + text_param(0x0001, c.name@) + hid_function_param(
            c.function,
        ) + hid_extra_param(c.extra_data),
    )
}

/// The declarations of all HID components, in order.
pub open spec fn hid_component_params(cs: Seq<HidComponent>) -> Seq<u8>
    decreases cs.len(),
{
    if cs.len() == 0 {
        Seq::empty()
    } else {
        hid_component_params(cs.drop_last()) + hid_component_param(cs.len() == 1, cs.last())
    }
}

/// The SupportedExternalAccessoryProtocol parameter: protocol identifier 0,
/// the protocol name and match action 1.
pub open spec fn ea_protocol_param(name: Seq<char>) -> Seq<u8> {
    param(
        0x000A,
        param(0x0000, seq![0x00u8]) + text_param(0x0001, name) + param(0x0002, seq![0x01u8]),
    )
}

/// The optional PreferredAppBundleSeedIdentifier parameter.
pub open spec fn bundle_seed_param(seed: Option<String>) -> Seq<u8> {
    match seed {
        Some(s) => text_param(0x000B, s@),
        None => Seq::empty(),
    }
}

/// The parameters of IdentificationInformation.
pub open spec fn identification_params_of(id: DeviceIdentification, power: PowerConfig) -> Seq<
    u8,
> {
    text_param(0x0000, id.name@) + text_param(0x0001, id.model_identifier@) + text_param(
        0x0002,
        id.manufacturer@,
    ) + text_param(0x0003, id.serial_number@) + text_param(0x0004, id.firmware_version@)
        + text_param(0x0005, id.hardware_version@) + id_list_param(0x0006, id.messages_sent@)
        + id_list_param(0x0007, id.messages_received@) + param(0x0008, seq![power.source_type])
        + param(0x0009, be16(power.max_current_ma as int)) + ea_protocol_param(
        id.ea_protocol_name@,
    ) + bundle_seed_param(id.bundle_seed_id) + text_param(0x000C, id.current_language@)
        + language_params(id.supported_languages@) + hid_component_params(id.hid_components@)
}

/// The parameters of StartExternalAccessoryProtocolSession.
pub open spec fn ea_session_request_params_of(name: Seq<char>, protocol_identifier: u8) -> Seq<
    u8,
> {
    text_param(0x0000, name) + param(0x0001, seq![protocol_identifier])
}

/// One empty request parameter per attribute id.
pub open spec fn attribute_requests(ids: Seq<u16>) -> Seq<u8>
    decreases ids.len(),
{
    if ids.len() == 0 {
        Seq::empty()
    } else {
        attribute_requests(ids.drop_last()) + param(ids.last(), Seq::empty())
    }
}

/// A group of attribute requests, left out when no attribute is asked for.
pub open spec fn attribute_group(id: u16, ids: Seq<u16>) -> Seq<u8> {
    if ids.len() == 0 {
        Seq::empty()
    } else {
        param(id, attribute_requests(ids))
    }
}

/// The parameters of StartNowPlayingUpdates: the media item group (0) and
/// the playback group (1).
pub open spec fn now_playing_params_of(config: NowPlayingConfig) -> Seq<u8> {
    attribute_group(0x0000, config.media_item_attributes@) + attribute_group(
        0x0001,
        config.playback_attributes@,
    )
}

/// The parameters of RequestAppLaunch: the bundle id and launch option 1.
pub open spec fn app_launch_params_of(bundle_id: Seq<char>) -> Seq<u8> {
    text_param(0x0000, bundle_id) + param(0x0001, seq![0x01u8])
}

/// Appends a parameter holding a zero-terminated string.
fn push_text_param(buf: &mut Vec<u8>, id: u16, s: &str)
    ensures
        final(buf)@ == old(buf)@ + text_param(id, s@),
{
    let bytes = cstr_bytes(s);
    push_param(buf, id, bytes.as_slice());
}

/// Appends a list parameter unless the list is empty.
fn push_id_list_param(buf: &mut Vec<u8>, id: u16, ids: &Vec<u16>)
    ensures
        final(buf)@ == old(buf)@ + id_list_param(id, ids@),
{
    if ids.len() == 0 {
        assert(buf@ =~= old(buf)@ + id_list_param(id, ids@));
    } else {
        let mut data: Vec<u8> = Vec::new();
        push_u16_list(&mut data, ids.as_slice());
        assert(data@ =~= u16_list(ids@));
        push_param(buf, id, data.as_slice());
    }
}

/// Appends one SupportedLanguage parameter per language.
fn push_language_params(buf: &mut Vec<u8>, langs: &Vec<String>)
    ensures
        final(buf)@ == old(buf)@ + language_params(langs@),
{
    let ghost start = buf@;
    let mut i: usize = 0;
    assert(langs@.take(0) =~= Seq::<String>::empty());
    while i < langs.len()
        invariant
            i <= langs@.len(),
            buf@ == start + language_params(langs@.take(i as int)),
        decreases langs@.len() - i,
    {
        push_text_param(buf, 0x000D, langs[i].as_str());
        proof {
            assert(langs@.take(i + 1).drop_last() =~= langs@.take(i as int));
        }
        i = i + 1;
        assert(buf@ =~= start + language_params(langs@.take(i as int)));
    }
    assert(langs@.take(i as int) =~= langs@);
}

/// The contents of one HID component declaration.
fn hid_component_body(c: &HidComponent) -> (r: Vec<u8>)
    ensures
        r@ == param(0x0000, be16(c.id as int)) + text_param(0x0001, c.name@) + hid_function_param(
            c.function,
        ) + hid_extra_param(c.extra_data),
{
    let mut body: Vec<u8> = Vec::new();
    let mut id_bytes: Vec<u8> = Vec::new();
    push_be16(&mut id_bytes, c.id);
    push_param(&mut body, 0x0000, id_bytes.as_slice());
    push_text_param(&mut body, 0x0001, c.name.as_str());
    let ghost before_function = body@;
    match c.function {
        HidFunction::NoFunction => {
            let none: Vec<u8> = Vec::new();
            push_param(&mut body, 0x0002, none.as_slice());
        },
        HidFunction::MediaPlaybackRemote => {
            let one: Vec<u8> = vec![0x01];
            push_param(&mut body, 0x0002, one.as_slice());
        },
        HidFunction::Custom(v) => {
            let value: Vec<u8> = vec![v];
            push_param(&mut body, 0x0002, value.as_slice());
        },
    }
    assert(body@ =~= before_function + hid_function_param(c.function));
    let ghost before_extra = body@;
    match &c.extra_data {
        Some(d) => {
            push_param(&mut body, 0x0003, d.as_slice());
        },
        None => {},
    }
    assert(body@ =~= before_extra + hid_extra_param(c.extra_data));
    body
}

/// Appends the declarations of all HID components.
fn push_hid_component_params(buf: &mut Vec<u8>, cs: &Vec<HidComponent>)
    ensures
        final(buf)@ == old(buf)@ + hid_component_params(cs@),
{
    let ghost start = buf@;
    let mut i: usize = 0;
    assert(cs@.take(0) =~= Seq::<HidComponent>::empty());
    while i < cs.len()
        invariant
            i <= cs@.len(),
            buf@ == start + hid_component_params(cs@.take(i as int)),
        decreases cs@.len() - i,
    {
        let pid: u16 = if i == 0 {
            0x0011
        } else {
            0x0012
        };
        let body = hid_component_body(&cs[i]);
        push_param(buf, pid, body.as_slice());
        proof {
            let t = cs@.take(i + 1);
            assert(t.drop_last() =~= cs@.take(i as int));
            assert(t.last() == cs@[i as int]);
            assert(hid_component_params(t) == hid_component_params(cs@.take(i as int))
                + hid_component_param(i == 0, cs@[i as int]));
        }
        i = i + 1;
        assert(buf@ =~= start + hid_component_params(cs@.take(i as int)));
    }
    assert(cs@.take(i as int) =~= cs@);
}

/// The control session with the device: the accessory's identification and
/// the settings that its messages carry.
pub struct ControlSession {
    identification: DeviceIdentification,
    session_id: u8,
    now_playing_config: NowPlayingConfig,
    power_config: PowerConfig,
}

impl ControlSession {
    pub closed spec fn identification(&self) -> DeviceIdentification {
        self.identification
    }

    pub closed spec fn session(&self) -> u8 {
        self.session_id
    }

    pub closed spec fn now_playing_config(&self) -> NowPlayingConfig {
        self.now_playing_config
    }

    pub closed spec fn power_config(&self) -> PowerConfig {
        self.power_config
    }

    pub fn new(
        identification: DeviceIdentification,
        session_id: u8,
        now_playing_config: NowPlayingConfig,
        power_config: PowerConfig,
    ) -> (r: Self)
        ensures
            r.identification() == identification,
            r.session() == session_id,
            r.now_playing_config() == now_playing_config,
            r.power_config() == power_config,
    {
        ControlSession { identification, session_id, now_playing_config, power_config }
    }

    /// The id of the link session that carries the control messages.
    pub fn session_id(&self) -> (r: u8)
        ensures
            r == self.session(),
    {
        self.session_id
    }

    /// The parameters of IdentificationInformation.
    pub fn identification_params(&self) -> (r: Vec<u8>)
        ensures
            r@ == identification_params_of(self.identification(), self.power_config()),
    {
        let id = &self.identification;
        let mut body: Vec<u8> = Vec::new();
        push_text_param(&mut body, 0x0000, id.name.as_str());
        push_text_param(&mut body, 0x0001, id.model_identifier.as_str());
        push_text_param(&mut body, 0x0002, id.manufacturer.as_str());
        push_text_param(&mut body, 0x0003, id.serial_number.as_str());
        push_text_param(&mut body, 0x0004, id.firmware_version.as_str());
        push_text_param(&mut body, 0x0005, id.hardware_version.as_str());
        push_id_list_param(&mut body, 0x0006, &id.messages_sent);
        push_id_list_param(&mut body, 0x0007, &id.messages_received);
        let source: Vec<u8> = vec![self.power_config.source_type];
        push_param(&mut body, 0x0008, source.as_slice());
        let mut current: Vec<u8> = Vec::new();
        push_be16(&mut current, self.power_config.max_current_ma);
        push_param(&mut body, 0x0009, current.as_slice());
        let ghost before_ea = body@;
        let mut ea: Vec<u8> = Vec::new();
        let zero: Vec<u8> = vec![0x00];
        push_param(&mut ea, 0x0000, zero.as_slice());
        push_text_param(&mut ea, 0x0001, id.ea_protocol_name.as_str());
        let one: Vec<u8> = vec![0x01];
        push_param(&mut ea, 0x0002, one.as_slice());
        push_param(&mut body, 0x000A, ea.as_slice());
        assert(body@ =~= before_ea + ea_protocol_param(id.ea_protocol_name@));
        let ghost before_seed = body@;
        match &id.bundle_seed_id {
            Some(seed) => {
                push_text_param(&mut body, 0x000B, seed.as_str());
            },
            None => {},
        }
        assert(body@ =~= before_seed + bundle_seed_param(id.bundle_seed_id));
        push_text_param(&mut body, 0x000C, id.current_language.as_str());
        push_language_params(&mut body, &id.supported_languages);
        push_hid_component_params(&mut body, &id.hid_components);
        assert(body@ =~= identification_params_of(self.identification(), self.power_config()));
        body
    }

    /// IdentificationInformation, which answers StartIdentification.
    pub fn identification_message(&self) -> (r: bytes::Bytes)
        requires
            control_message_fits(
                identification_params_of(self.identification(), self.power_config()).len() as int,
            ),
        ensures
            bytes_view(r) == control_message(
                IDENTIFICATION_INFORMATION,
                identification_params_of(self.identification(), self.power_config()),
            ),
    {
        let params = self.identification_params();
        bytes_from_vec(frame_control_message(IDENTIFICATION_INFORMATION, params.as_slice()))
    }

    /// The parameters of StartExternalAccessoryProtocolSession.
    pub fn ea_session_request_params(&self, protocol_identifier: u8) -> (r: Vec<u8>)
        ensures
            r@ == ea_session_request_params_of(
                self.identification().ea_protocol_name@,
                protocol_identifier,
            ),
    {
        let mut body: Vec<u8> = Vec::new();
        push_text_param(&mut body, 0x0000, self.identification.ea_protocol_name.as_str());
        let ident: Vec<u8> = vec![protocol_identifier];
        push_param(&mut body, 0x0001, ident.as_slice());
        assert(body@ =~= ea_session_request_params_of(
            self.identification().ea_protocol_name@,
            protocol_identifier,
        ));
        body
    }

    /// StartExternalAccessoryProtocolSession for the accessory's protocol.
    pub fn ea_session_request_message(&self, protocol_identifier: u8) -> (r: bytes::Bytes)
        requires
            control_message_fits(
                ea_session_request_params_of(
                    self.identification().ea_protocol_name@,
                    protocol_identifier,
                ).len() as int,
            ),
        ensures
            bytes_view(r) == control_message(
                START_EA_SESSION,
                ea_session_request_params_of(
                    self.identification().ea_protocol_name@,
                    protocol_identifier,
                ),
            ),
    {
        let params = self.ea_session_request_params(protocol_identifier);
        bytes_from_vec(frame_control_message(START_EA_SESSION, params.as_slice()))
    }

    /// The parameters of StartNowPlayingUpdates.
    pub fn now_playing_params(&self) -> (r: Vec<u8>)
        ensures
            r@ == now_playing_params_of(self.now_playing_config()),
    {
        let mut body: Vec<u8> = Vec::new();
        push_attribute_group(&mut body, 0x0000, &self.now_playing_config.media_item_attributes);
        push_attribute_group(&mut body, 0x0001, &self.now_playing_config.playback_attributes);
        body
    }

    /// StartNowPlayingUpdates for the configured attributes.
    pub fn start_now_playing_message(&self) -> (r: bytes::Bytes)
        requires
            control_message_fits(now_playing_params_of(self.now_playing_config()).len() as int),
        ensures
            bytes_view(r) == control_message(
                START_NOW_PLAYING_UPDATES,
                now_playing_params_of(self.now_playing_config()),
            ),
    {
        let params = self.now_playing_params();
        bytes_from_vec(frame_control_message(START_NOW_PLAYING_UPDATES, params.as_slice()))
    }

    /// StopNowPlayingUpdates.
    pub fn stop_now_playing_message(&self) -> (r: bytes::Bytes)
        ensures
            bytes_view(r) == control_message(STOP_NOW_PLAYING_UPDATES, Seq::empty()),
    {
        let none: Vec<u8> = Vec::new();
        bytes_from_vec(frame_control_message(STOP_NOW_PLAYING_UPDATES, none.as_slice()))
    }

    /// RequestStatusUpdate, sent to keep the connection alive.
    pub fn keepalive_message(&self) -> (r: bytes::Bytes)
        ensures
            bytes_view(r) == control_message(REQUEST_STATUS_UPDATE, Seq::empty()),
    {
        let none: Vec<u8> = Vec::new();
        bytes_from_vec(frame_control_message(REQUEST_STATUS_UPDATE, none.as_slice()))
    }

    /// The parameters of RequestAppLaunch.
    pub fn app_launch_params(&self, bundle_id: &str) -> (r: Vec<u8>)
        ensures
            r@ == app_launch_params_of(bundle_id@),
    {
        let mut body: Vec<u8> = Vec::new();
        push_text_param(&mut body, 0x0000, bundle_id);
        let one: Vec<u8> = vec![0x01];
        push_param(&mut body, 0x0001, one.as_slice());
        assert(body@ =~= app_launch_params_of(bundle_id@));
        body
    }

    /// RequestAppLaunch for the app with the given bundle id.
    pub fn app_launch_message(&self, bundle_id: &str) -> (r: bytes::Bytes)
        requires
            control_message_fits(app_launch_params_of(bundle_id@).len() as int),
        ensures
            bytes_view(r) == control_message(START_EA_SESSION, app_launch_params_of(bundle_id@)),
    {
        let params = self.app_launch_params(bundle_id);
        bytes_from_vec(frame_control_message(START_EA_SESSION, params.as_slice()))
    }
}

/// Appends a group of attribute requests unless no attribute is asked for.
fn push_attribute_group(buf: &mut Vec<u8>, id: u16, ids: &Vec<u16>)
    ensures
        final(buf)@ == old(buf)@ + attribute_group(id, ids@),
{
    if ids.len() == 0 {
        assert(buf@ =~= old(buf)@ + attribute_group(id, ids@));
        return;
    }
    let mut group: Vec<u8> = Vec::new();
    let mut i: usize = 0;
    assert(ids@.take(0) =~= Seq::<u16>::empty());
    while i < ids.len()
        invariant
            i <= ids@.len(),
            group@ == attribute_requests(ids@.take(i as int)),
        decreases ids@.len() - i,
    {
        let none: Vec<u8> = Vec::new();
        push_param(&mut group, ids[i], none.as_slice());
        proof {
            assert(ids@.take(i + 1).drop_last() =~= ids@.take(i as int));
        }
        i = i + 1;
        assert(group@ =~= attribute_requests(ids@.take(i as int)));
    }
    assert(ids@.take(i as int) =~= ids@);
    push_param(buf, id, group.as_slice());
}

/// A parameter read back from the front of `d`, where `d` is the
/// parameter followed by `rest` and fits in 16 bits.
proof fn lemma_read_front(id: u16, data: Seq<u8>, rest: Seq<u8>, bound: int)
    requires
        (param(id, data) + rest).len() <= bound,
        bound <= 65535,
    ensures
        params(param(id, data) + rest) == seq![(id, data)] + params(rest),
        param(id, data).len() == data.len() + 4,
{
    assert(param(id, data).len() == data.len() + 4);
    lemma_param_reads_back(id, data, rest);
}

/// A list parameter read back from the front of `d`: it is there exactly
/// when the list is not empty.
proof fn lemma_read_list_front(id: u16, ids: Seq<u16>, rest: Seq<u8>, bound: int)
    requires
        (id_list_param(id, ids) + rest).len() <= bound,
        bound <= 65535,
    ensures
        params(id_list_param(id, ids) + rest) == (if ids.len() > 0 {
            seq![(id, u16_list(ids))]
        } else {
            Seq::empty()
        }) + params(rest),
{
    if ids.len() > 0 {
        lemma_read_front(id, u16_list(ids), rest, bound);
    } else {
        assert(id_list_param(id, ids) + rest =~= rest);
        assert(Seq::<(u16, Seq<u8>)>::empty() + params(rest) =~= params(rest));
    }
}

/// The parameters read back from a run of the identification's first
/// eleven fields, as the names, lists and values of the identification
/// lay them out, followed by `r`.
#[verifier::spinoff_prover]
#[verifier::rlimit(40)]
proof fn lemma_read_identification_layout(
    d0: Seq<u8>,
    d1: Seq<u8>,
    d2: Seq<u8>,
    d3: Seq<u8>,
    d4: Seq<u8>,
    d5: Seq<u8>,
    sent: Seq<u16>,
    received: Seq<u16>,
    d8: Seq<u8>,
    d9: Seq<u8>,
    da: Seq<u8>,
    r: Seq<u8>,
)
    requires
        (param(0x0000, d0) + param(0x0001, d1) + param(0x0002, d2) + param(0x0003, d3) + param(
            0x0004,
            d4,
        ) + param(0x0005, d5) + id_list_param(0x0006, sent) + id_list_param(0x0007, received)
            + param(0x0008, d8) + param(0x0009, d9) + param(0x000A, da) + r).len() <= 65535,
    ensures
        params(
            param(0x0000, d0) + param(0x0001, d1) + param(0x0002, d2) + param(0x0003, d3) + param(
                0x0004,
                d4,
            ) + param(0x0005, d5) + id_list_param(0x0006, sent) + id_list_param(0x0007, received)
                + param(0x0008, d8) + param(0x0009, d9) + param(0x000A, da) + r,
        ) == seq![(0x0000u16, d0)] + (seq![(0x0001u16, d1)] + (seq![(0x0002u16, d2)] + (seq![
            (0x0003u16, d3),
        ] + (seq![(0x0004u16, d4)] + (seq![(0x0005u16, d5)] + (list_entry(0x0006, sent) + (
        list_entry(0x0007, received) + (seq![(0x0008u16, d8)] + (seq![(0x0009u16, d9)] + (seq![
            (0x000Au16, da),
        ] + params(r))))))))))),
{
    let p0 = param(0x0000, d0);
    let p1 = param(0x0001, d1);
    let p2 = param(0x0002, d2);
    let p3 = param(0x0003, d3);
    let p4 = param(0x0004, d4);
    let p5 = param(0x0005, d5);
    let l6 = id_list_param(0x0006, sent);
    let l7 = id_list_param(0x0007, received);
    let p8 = param(0x0008, d8);
    let p9 = param(0x0009, d9);
    let pa = param(0x000A, da);
    let q1 = p0 + p1;
    let q2 = q1 + p2;
    let q3 = q2 + p3;
    let q4 = q3 + p4;
    let q5 = q4 + p5;
    let q6 = q5 + l6;
    let q7 = q6 + l7;
    let q8 = q7 + p8;
    let q9 = q8 + p9;
    let whole = q9 + pa + r;
    let b = whole.len() as int;
    let s10 = pa + r;
    let s9 = p9 + s10;
    let s8 = p8 + s9;
    let s7 = l7 + s8;
    let s6 = l6 + s7;
    let s5 = p5 + s6;
    let s4 = p4 + s5;
    let s3 = p3 + s4;
    let s2 = p2 + s3;
    let s1 = p1 + s2;
    lemma_concat_associative(q9, pa, r);
    lemma_concat_associative(q8, p9, s10);
    lemma_concat_associative(q7, p8, s9);
    lemma_concat_associative(q6, l7, s8);
    lemma_concat_associative(q5, l6, s7);
    lemma_concat_associative(q4, p5, s6);
    lemma_concat_associative(q3, p4, s5);
    lemma_concat_associative(q2, p3, s4);
    lemma_concat_associative(q1, p2, s3);
    lemma_concat_associative(p0, p1, s2);
    assert(whole == p0 + s1);
    lemma_read_front(0x0000, d0, s1, b);
    lemma_read_front(0x0001, d1, s2, b);
    lemma_read_front(0x0002, d2, s3, b);
    lemma_read_front(0x0003, d3, s4, b);
    lemma_read_front(0x0004, d4, s5, b);
    lemma_read_front(0x0005, d5, s6, b);
    lemma_read_list_front(0x0006, sent, s7, b);
    lemma_read_list_front(0x0007, received, s8, b);
    lemma_read_front(0x0008, d8, s9, b);
    lemma_read_front(0x0009, d9, s10, b);
    lemma_read_front(0x000A, da, r, b);
}

/// The entry that a list parameter gives when read back: one where the
/// list is not empty.
spec fn list_entry(id: u16, ids: Seq<u16>) -> Seq<(u16, Seq<u8>)> {
    if ids.len() > 0 {
        seq![(id, u16_list(ids))]
    } else {
        Seq::empty()
    }
}

/// A run of entries read one after another starts with those entries.
#[verifier::spinoff_prover]
#[verifier::rlimit(40)]
proof fn lemma_nested_entries_prefix(
    e0: (u16, Seq<u8>),
    e1: (u16, Seq<u8>),
    e2: (u16, Seq<u8>),
    e3: (u16, Seq<u8>),
    e4: (u16, Seq<u8>),
    e5: (u16, Seq<u8>),
    e8: (u16, Seq<u8>),
    e9: (u16, Seq<u8>),
    ea: (u16, Seq<u8>),
    o6: Seq<(u16, Seq<u8>)>,
    o7: Seq<(u16, Seq<u8>)>,
    tail: Seq<(u16, Seq<u8>)>,
    ps: Seq<(u16, Seq<u8>)>,
)
    requires
        ps == seq![e0] + (seq![e1] + (seq![e2] + (seq![e3] + (seq![e4] + (seq![e5] + (o6
            + (o7 + (seq![e8] + (seq![e9] + (seq![ea] + tail)))))))))),
    ensures
        ({
            let f = seq![e0, e1, e2, e3, e4, e5] + o6 + o7 + seq![e8, e9, ea];
            &&& f.len() <= ps.len()
            &&& ps.subrange(0, f.len() as int) == f
        }),
{
    let x0 = seq![e0];
    let x1 = seq![e1];
    let x2 = seq![e2];
    let x3 = seq![e3];
    let x4 = seq![e4];
    let x5 = seq![e5];
    let x8 = seq![e8];
    let x9 = seq![e9];
    let xa = seq![ea];
    let t10 = xa + tail;
    let t9 = x9 + t10;
    let t8 = x8 + t9;
    let t7 = o7 + t8;
    let t6 = o6 + t7;
    let t5 = x5 + t6;
    let t4 = x4 + t5;
    let t3 = x3 + t4;
    let t2 = x2 + t3;
    let t1 = x1 + t2;
    let g1 = x0 + x1;
    let g2 = g1 + x2;
    let g3 = g2 + x3;
    let g4 = g3 + x4;
    let g5 = g4 + x5;
    let g6 = g5 + o6;
    let g7 = g6 + o7;
    let g8 = g7 + x8;
    let g9 = g8 + x9;
    let ga = g9 + xa;
    lemma_concat_associative(x0, x1, t2);
    lemma_concat_associative(g1, x2, t3);
    lemma_concat_associative(g2, x3, t4);
    lemma_concat_associative(g3, x4, t5);
    lemma_concat_associative(g4, x5, t6);
    lemma_concat_associative(g5, o6, t7);
    lemma_concat_associative(g6, o7, t8);
    lemma_concat_associative(g7, x8, t9);
    lemma_concat_associative(g8, x9, t10);
    lemma_concat_associative(g9, xa, tail);
    assert(ps == ga + tail);
    let f = seq![e0, e1, e2, e3, e4, e5] + o6 + o7 + seq![e8, e9, ea];
    assert(g5 =~= seq![e0, e1, e2, e3, e4, e5]);
    assert(ga =~= f);
    assert(ps.subrange(0, f.len() as int) =~= f);
}

/// Reading the identification back gives, in order, the name (0x0000),
/// model (0x0001), manufacturer (0x0002), serial number (0x0003), firmware
/// (0x0004) and hardware versions (0x0005) as zero-terminated strings, the
/// messages the accessory sends (0x0006) and those it receives from the
/// device (0x0007) where there are any, the power source type (0x0008), the
/// maximum current (0x0009) and the external accessory protocol (0x000A),
/// as long as the whole fits in 16 bits.
#[verifier::spinoff_prover]
#[verifier::rlimit(60)]
pub proof fn lemma_identification_reads_back(id: DeviceIdentification, power: PowerConfig)
    requires
        identification_params_of(id, power).len() <= 65535,
    ensures
        ({
            let ps = params(identification_params_of(id, power));
            let fields = seq![
                (0x0000u16, cstr(id.name@)),
                (0x0001u16, cstr(id.model_identifier@)),
                (0x0002u16, cstr(id.manufacturer@)),
                (0x0003u16, cstr(id.serial_number@)),
                (0x0004u16, cstr(id.firmware_version@)),
                (0x0005u16, cstr(id.hardware_version@)),
            ] + (if id.messages_sent@.len() > 0 {
                seq![(0x0006u16, u16_list(id.messages_sent@))]
            } else {
                Seq::empty()
            }) + (if id.messages_received@.len() > 0 {
                seq![(0x0007u16, u16_list(id.messages_received@))]
            } else {
                Seq::empty()
            }) + seq![
                (0x0008u16, seq![power.source_type]),
                (0x0009u16, be16(power.max_current_ma as int)),
                (
                    0x000Au16,
                    param(0x0000, seq![0x00u8]) + param(0x0001, cstr(id.ea_protocol_name@)) + param(
                        0x0002,
                        seq![0x01u8],
                    ),
                ),
            ];
            &&& fields.len() <= ps.len()
            &&& ps.subrange(0, fields.len() as int) == fields
        }),
{
    let d0 = cstr(id.name@);
    let d1 = cstr(id.model_identifier@);
    let d2 = cstr(id.manufacturer@);
    let d3 = cstr(id.serial_number@);
    let d4 = cstr(id.firmware_version@);
    let d5 = cstr(id.hardware_version@);
    let sent = id.messages_sent@;
    let received = id.messages_received@;
    let d8 = seq![power.source_type];
    let d9 = be16(power.max_current_ma as int);
    let da = param(0x0000, seq![0x00u8]) + param(0x0001, cstr(id.ea_protocol_name@)) + param(
        0x0002,
        seq![0x01u8],
    );
    let r = bundle_seed_param(id.bundle_seed_id) + text_param(0x000C, id.current_language@)
        + language_params(id.supported_languages@) + hid_component_params(id.hid_components@);
    assert(identification_params_of(id, power) == param(0x0000, d0) + param(0x0001, d1) + param(
        0x0002,
        d2,
    ) + param(0x0003, d3) + param(0x0004, d4) + param(0x0005, d5) + id_list_param(0x0006, sent)
        + id_list_param(0x0007, received) + param(0x0008, d8) + param(0x0009, d9) + param(
        0x000A,
        da,
    ) + r);
    lemma_read_identification_layout(d0, d1, d2, d3, d4, d5, sent, received, d8, d9, da, r);
    lemma_nested_entries_prefix(
        (0x0000u16, d0),
        (0x0001u16, d1),
        (0x0002u16, d2),
        (0x0003u16, d3),
        (0x0004u16, d4),
        (0x0005u16, d5),
        (0x0008u16, d8),
        (0x0009u16, d9),
        (0x000Au16, da),
        list_entry(0x0006, sent),
        list_entry(0x0007, received),
        params(r),
        params(identification_params_of(id, power)),
    );
}

} // verus!
