//! Parsing of NowPlayingUpdate messages: nested parameter groups with the
//! media item (title, artist, album, duration) and the playback state
//! (status, elapsed time, shuffle and repeat modes, application name).

use vstd::prelude::*;
use vstd::string::StrSliceExecFns;

use crate::types::{
    playback_status_of, repeat_mode_of, shuffle_mode_of, NowPlayingInfo, NowPlayingMediaItem,
    NowPlayingPlayback, PlaybackStatus, RepeatMode, ShuffleMode,
};
use crate::wire::{be16, be16_value, lemma_be16_reads_back, param, read_be16};

verus! {

/// The characters that `String::from_utf8_lossy` gives for `bytes`: the
/// decoded text, with each ill-formed sequence replaced by U+FFFD.
pub uninterp spec fn lossy_text(bytes: Seq<u8>) -> Seq<char>;

/// Whether `c` has Unicode's White_Space property, the white space that
/// `str::trim` strips: U+0009 to U+000D, U+0020, U+0085, U+00A0, U+1680,
/// U+2000 to U+200A, U+2028, U+2029, U+202F, U+205F and U+3000.
pub open spec fn is_white_space(c: char) -> bool {
    let v = c as u32;
    ||| 0x09 <= v <= 0x0D
    ||| v == 0x20
    ||| v == 0x85
    ||| v == 0xA0
    ||| v == 0x1680
    ||| 0x2000 <= v <= 0x200A
    ||| v == 0x2028
    ||| v == 0x2029
    ||| v == 0x202F
    ||| v == 0x205F
    ||| v == 0x3000
}

/// Whether every character is white space.
pub open spec fn all_white_space(s: Seq<char>) -> bool {
    forall|k: int| 0 <= k < s.len() ==> is_white_space(#[trigger] s[k])
}

/// `r` is `s` from `i` up to `j`, with only white space before `i` and
/// from `j` on, and no white space at either end of `r`.
pub open spec fn trimmed_at(s: Seq<char>, r: Seq<char>, i: int, j: int) -> bool {
    &&& 0 <= i <= j <= s.len()
    &&& r == s.subrange(i, j)
    &&& forall|k: int| 0 <= k < i ==> is_white_space(#[trigger] s[k])
    &&& forall|k: int| j <= k < s.len() ==> is_white_space(#[trigger] s[k])
    &&& i < j ==> !is_white_space(s[i]) && !is_white_space(s[j - 1])
}

/// `r` is `s` without its leading and trailing white space.
pub open spec fn trimmed(s: Seq<char>, r: Seq<char>) -> bool {
    exists|i: int, j: int| #[trigger] trimmed_at(s, r, i, j)
}

/// What trimming leaves is empty exactly when everything was white space.
pub proof fn lemma_trimmed_empty(s: Seq<char>, r: Seq<char>)
    requires
        trimmed(s, r),
    ensures
        r.len() == 0 <==> all_white_space(s),
{
    let (i, j) = choose|i: int, j: int| #[trigger] trimmed_at(s, r, i, j);
    assert(trimmed_at(s, r, i, j));
    assert(r.len() == j - i);
    if r.len() == 0 {
        assert forall|k: int| 0 <= k < s.len() implies is_white_space(#[trigger] s[k]) by {
            if k < i {
            } else {
                assert(j <= k);
            }
        }
    }
    if all_white_space(s) && i < j {
        assert(is_white_space(s[i]));
    }
}

/// Calls `String::from_utf8_lossy`: the result is `lossy_text(bytes)`, and
/// bytes that are valid UTF-8 come back as the text they encode.
#[verifier::external_body]
fn utf8_lossy(bytes: &[u8]) -> (r: String)
    ensures
        r@ == lossy_text(bytes@),
        vstd::utf8::valid_utf8(bytes@) ==> vstd::utf8::encode_utf8(r@) == bytes@,
{
    String::from_utf8_lossy(bytes).to_string()
}

/// Calls `str::trim`: the result is `s` without its leading and trailing
/// characters of Unicode's White_Space property.
#[verifier::external_body]
fn trim_text(s: &str) -> (r: &str)
    ensures
        trimmed(s@, r@),
{
    s.trim()
}

/// The parameters of a parameter list, from `offset` on: each is a 16-bit
/// length (which counts its own four header bytes), a 16-bit id and the
/// payload. The list ends at the first parameter whose length is below four
/// or runs past the data.
pub open spec fn params_from(d: Seq<u8>, offset: int) -> Seq<(u16, Seq<u8>)>
    decreases d.len() - offset,
{
    if offset < 0 || offset + 4 > d.len() {
        Seq::empty()
    } else {
        let len = be16_value(d[offset], d[offset + 1]);
        if len < 4 || offset + len > d.len() {
            Seq::empty()
        } else {
            seq![(be16_value(d[offset + 2], d[offset + 3]) as u16, d.subrange(offset + 4, offset + len))]
                + params_from(d, offset + len)
        }
    }
}

/// The parameters of a parameter list.
pub open spec fn params(d: Seq<u8>) -> Seq<(u16, Seq<u8>)> {
    params_from(d, 0)
}

/// The bytes before the first zero byte.
pub open spec fn until_nul(p: Seq<u8>) -> Seq<u8>
    decreases p.len(),
{
    if p.len() == 0 {
        p
    } else if p[0] == 0 {
        Seq::empty()
    } else {
        seq![p[0]] + until_nul(p.drop_first())
    }
}

/// Whether every character is the replacement character U+FFFD.
pub open spec fn all_replacement(s: Seq<char>) -> bool {
    forall|i: int| 0 <= i < s.len() ==> #[trigger] s[i] == '\u{FFFD}'
}

/// The text a string attribute carries: the bytes up to the first zero,
/// decoded leniently; nothing when they are empty, decode to replacement
/// characters only, or are white space only.
pub open spec fn text_value(p: Seq<u8>) -> Option<Seq<char>> {
    let t = until_nul(p);
    if t.len() == 0 {
        None
    } else {
        decoded_value(lossy_text(t))
    }
}

/// The text that decoded characters give: nothing when they are
/// replacement characters only or white space only.
pub open spec fn decoded_value(s: Seq<char>) -> Option<Seq<char>> {
    if all_replacement(s) || all_white_space(s) {
        None
    } else {
        Some(s)
    }
}

/// The big-endian value of the first four bytes, when there are four.
pub open spec fn u32_value(p: Seq<u8>) -> Option<u32> {
    if p.len() < 4 {
        None
    } else {
        Some((p[0] as int * 0x1000000 + p[1] as int * 0x10000 + p[2] as int * 0x100 + p[3] as int) as u32)
    }
}

/// The first byte, when there is one.
pub open spec fn first_byte(p: Seq<u8>) -> Option<u8> {
    if p.len() == 0 {
        None
    } else {
        Some(p[0])
    }
}

/// The value that the last parameter with id `id` gives through `f`, where
/// one gives a value; a later parameter with a value overrides an earlier one.
pub open spec fn last_value<T>(ps: Seq<(u16, Seq<u8>)>, id: u16, f: spec_fn(Seq<u8>) -> Option<
    T,
>) -> Option<T>
    decreases ps.len(),
{
    if ps.len() == 0 {
        None
    } else if ps.last().0 == id && f(ps.last().1) is Some {
        f(ps.last().1)
    } else {
        last_value(ps.drop_last(), id, f)
    }
}

/// The view of an optional string.
pub open spec fn opt_text(o: Option<String>) -> Option<Seq<char>> {
    match o {
        Some(s) => Some(s@),
        None => None,
    }
}

/// The media item attributes, as the contracts speak of them.
pub struct MediaItemView {
    pub title: Option<Seq<char>>,
    pub artist: Option<Seq<char>>,
    pub album: Option<Seq<char>>,
    pub duration_ms: Option<u32>,
}

/// The playback attributes, as the contracts speak of them.
pub struct PlaybackView {
    pub status: Option<PlaybackStatus>,
    pub elapsed_ms: Option<u32>,
    pub shuffle_mode: Option<ShuffleMode>,
    pub repeat_mode: Option<RepeatMode>,
    pub app_name: Option<Seq<char>>,
}

/// A NowPlaying update, as the contracts speak of it.
pub struct InfoView {
    pub media_item: Option<MediaItemView>,
    pub playback: Option<PlaybackView>,
}

impl View for NowPlayingMediaItem {
    type V = MediaItemView;

    open spec fn view(&self) -> MediaItemView {
        MediaItemView {
            title: opt_text(self.title),
            artist: opt_text(self.artist),
            album: opt_text(self.album),
            duration_ms: self.duration_ms,
        }
    }
}

impl View for NowPlayingPlayback {
    type V = PlaybackView;

    open spec fn view(&self) -> PlaybackView {
        PlaybackView {
            status: self.status,
            elapsed_ms: self.elapsed_ms,
            shuffle_mode: self.shuffle_mode,
            repeat_mode: self.repeat_mode,
            app_name: opt_text(self.app_name),
        }
    }
}

impl View for NowPlayingInfo {
    type V = InfoView;

    open spec fn view(&self) -> InfoView {
        InfoView {
            media_item: match self.media_item {
                Some(m) => Some(m@),
                None => None,
            },
            playback: match self.playback {
                Some(p) => Some(p@),
                None => None,
            },
        }
    }
}

/// The media item group: title (0x0001), duration (0x0004), artist (0x000C)
/// and album (0x001A); nothing when none of them is present.
pub open spec fn media_item_value(d: Seq<u8>) -> Option<MediaItemView> {
    let ps = params(d);
    let m = MediaItemView {
        title: last_value(ps, 0x0001, |p: Seq<u8>| text_value(p)),
        duration_ms: last_value(ps, 0x0004, |p: Seq<u8>| u32_value(p)),
        artist: last_value(ps, 0x000C, |p: Seq<u8>| text_value(p)),
        album: last_value(ps, 0x001A, |p: Seq<u8>| text_value(p)),
    };
    if m.title is None && m.duration_ms is None && m.artist is None && m.album is None {
        None
    } else {
        Some(m)
    }
}

/// The playback status that an attribute names by its first byte.
pub open spec fn status_value(q: Seq<u8>) -> Option<PlaybackStatus> {
    match first_byte(q) {
        Some(b) => Some(playback_status_of(b)),
        None => None,
    }
}

/// The shuffle mode that an attribute names by its first byte.
pub open spec fn shuffle_value(q: Seq<u8>) -> Option<ShuffleMode> {
    match first_byte(q) {
        Some(b) => Some(shuffle_mode_of(b)),
        None => None,
    }
}

/// The repeat mode that an attribute names by its first byte.
pub open spec fn repeat_value(q: Seq<u8>) -> Option<RepeatMode> {
    match first_byte(q) {
        Some(b) => Some(repeat_mode_of(b)),
        None => None,
    }
}

/// The playback group: status (0x0000), elapsed time (0x0001), shuffle mode
/// (0x0005), repeat mode (0x0006) and application name (0x0007); nothing
/// when none of them is present.
pub open spec fn playback_value(d: Seq<u8>) -> Option<PlaybackView> {
    let ps = params(d);
    let p = PlaybackView {
        status: last_value(
            ps,
            0x0000,
            |q: Seq<u8>| status_value(q),
        ),
        elapsed_ms: last_value(ps, 0x0001, |q: Seq<u8>| u32_value(q)),
        shuffle_mode: last_value(
            ps,
            0x0005,
            |q: Seq<u8>| shuffle_value(q),
        ),
        repeat_mode: last_value(
            ps,
            0x0006,
            |q: Seq<u8>| repeat_value(q),
        ),
        app_name: last_value(ps, 0x0007, |q: Seq<u8>| text_value(q)),
    };
    if p.status is None && p.elapsed_ms is None && p.shuffle_mode is None && p.repeat_mode is None
        && p.app_name is None {
        None
    } else {
        Some(p)
    }
}

/// A NowPlayingUpdate: the media item group (0x0000) and the playback group
/// (0x0001); nothing when the data is empty or neither group is present.
pub open spec fn now_playing_value(d: Seq<u8>) -> Option<InfoView> {
    if d.len() == 0 {
        None
    } else {
        let ps = params(d);
        let info = InfoView {
            media_item: last_value(ps, 0x0000, |q: Seq<u8>| media_item_value(q)),
            playback: last_value(ps, 0x0001, |q: Seq<u8>| playback_value(q)),
        };
        if info.media_item is None && info.playback is None {
            None
        } else {
            Some(info)
        }
    }
}

/// The bytes before the first zero byte end at the first zero byte.
proof fn lemma_until_nul(p: Seq<u8>, end: int)
    requires
        0 <= end <= p.len(),
        forall|j: int| 0 <= j < end ==> p[j] != 0,
        end == p.len() || p[end] == 0,
    ensures
        until_nul(p) == p.take(end),
    decreases p.len(),
{
    if p.len() == 0 {
        assert(p.take(end) =~= p);
    } else if p[0] == 0 {
        assert(p.take(end) =~= Seq::<u8>::empty());
    } else {
        lemma_until_nul(p.drop_first(), end - 1);
        assert(p.take(end) =~= seq![p[0]] + p.drop_first().take(end - 1));
    }
}

/// Parser of NowPlayingUpdate messages.
pub struct NowPlayingParser;

proof fn lemma_last_value_step<T>(ps: Seq<(u16, Seq<u8>)>, i: int, id: u16, f: spec_fn(Seq<u8>) -> Option<T>)
    requires
        0 <= i < ps.len(),
    ensures
        last_value(ps.take(i + 1), id, f) == if ps[i].0 == id && f(ps[i].1) is Some {
            f(ps[i].1)
        } else {
            last_value(ps.take(i), id, f)
        },
{
    assert(ps.take(i + 1).drop_last() =~= ps.take(i));
    assert(ps.take(i + 1).last() == ps[i]);
}

impl NowPlayingParser {
    /// Parses the parameters of a NowPlayingUpdate message.
    pub fn parse(data: &[u8]) -> (r: Option<NowPlayingInfo>)
        ensures
            match r {
                Some(info) => now_playing_value(data@) == Some(info@),
                None => now_playing_value(data@) is None,
            },
    {
        if data.len() == 0 {
            return None;
        }
        let ps = Self::parse_parameters(data);
        let ghost pv = params(data@);
        proof {
            assert forall|j: int| 0 <= j < pv.len() implies #[trigger] ps@[j].0 == pv[j].0
                && ps@[j].1@ == pv[j].1 by {
                assert(ps@[j].0 == params(data@)[j].0);
            }
        }
        let mut update = NowPlayingInfo::default();
        let mut i: usize = 0;
        while i < ps.len()
            invariant
                i <= ps@.len(),
                ps@.len() == pv.len(),
                forall|j: int| 0 <= j < pv.len() ==> #[trigger] ps@[j].0 == pv[j].0 && ps@[j].1@ == pv[j].1,
                pv == params(data@),
                update@.media_item == last_value(pv.take(i as int), 0x0000, |q: Seq<u8>| media_item_value(q)),
                update@.playback == last_value(pv.take(i as int), 0x0001, |q: Seq<u8>| playback_value(q)),
            decreases ps@.len() - i,
        {
            let (param_id, payload) = ps[i];
            proof {
                lemma_last_value_step(pv, i as int, 0x0000, |q: Seq<u8>| media_item_value(q));
                lemma_last_value_step(pv, i as int, 0x0001, |q: Seq<u8>| playback_value(q));
            }
            if param_id == 0x0000 {
                match Self::parse_media_item_group(payload) {
                    Some(media_item) => {
                        update.media_item = Some(media_item);
                    },
                    None => {},
                }
            } else if param_id == 0x0001 {
                match Self::parse_playback_group(payload) {
                    Some(playback) => {
                        update.playback = Some(playback);
                    },
                    None => {},
                }
            }
            i = i + 1;
        }
        assert(pv.take(pv.len() as int) =~= pv);
        if update.media_item.is_some() || update.playback.is_some() {
            Some(update)
        } else {
            None
        }
    }

    /// Splits a parameter list into its parameters.
    pub fn parse_parameters(data: &[u8]) -> (r: Vec<(u16, &[u8])>)
        ensures
            r@.len() == params(data@).len(),
            forall|j: int|
                0 <= j < r@.len() ==> #[trigger] r@[j].0 == params(data@)[j].0 && r@[j].1@
                    == params(data@)[j].1,
    {
        let mut out: Vec<(u16, &[u8])> = Vec::new();
        let mut offset: usize = 0;
        let ghost d = data@;
        while data.len() - offset >= 4
            invariant
                d == data@,
                offset <= d.len(),
                params(d) == out@.map_values(|p: (u16, &[u8])| (p.0, p.1@)) + params_from(d, offset as int),
            decreases d.len() - offset,
        {
            let length = read_be16(data[offset], data[offset + 1]) as usize;
            if length < 4 || length > data.len() - offset {
                proof {
                    Self::lemma_params_done(d, out@, offset as int);
                }
                return out;
            }
            let param_id = read_be16(data[offset + 2], data[offset + 3]);
            let payload = crate::packet::slice_range(data, offset + 4, offset + length);
            let ghost before = out@.map_values(|p: (u16, &[u8])| (p.0, p.1@));
            out.push((param_id, payload));
            proof {
                assert(out@.map_values(|p: (u16, &[u8])| (p.0, p.1@)) =~= before.push(
                    (param_id, payload@),
                ));
                assert(params_from(d, offset as int) =~= seq![(param_id, payload@)] + params_from(
                    d,
                    offset + length,
                ));
                assert(before + params_from(d, offset as int) =~= before.push((param_id, payload@))
                    + params_from(d, offset + length));
            }
            offset = offset + length;
        }
        proof {
            Self::lemma_params_done(d, out@, offset as int);
        }
        out
    }

    proof fn lemma_params_done(d: Seq<u8>, out: Seq<(u16, &[u8])>, offset: int)
        requires
            0 <= offset <= d.len(),
            params(d) == out.map_values(|p: (u16, &[u8])| (p.0, p.1@)) + params_from(d, offset),
            params_from(d, offset).len() == 0,
        ensures
            out.len() == params(d).len(),
            forall|j: int|
                0 <= j < out.len() ==> #[trigger] out[j].0 == params(d)[j].0 && out[j].1@
                    == params(d)[j].1,
    {
        let m = out.map_values(|p: (u16, &[u8])| (p.0, p.1@));
        assert(params(d) =~= m);
        assert forall|j: int| 0 <= j < out.len() implies #[trigger] out[j].0 == params(d)[j].0
            && out[j].1@ == params(d)[j].1 by {
            assert(m[j] == (out[j].0, out[j].1@));
        }
    }

    /// Parses the media item group.
    pub fn parse_media_item_group(data: &[u8]) -> (r: Option<NowPlayingMediaItem>)
        ensures
            match r {
                Some(m) => media_item_value(data@) == Some(m@),
                None => media_item_value(data@) is None,
            },
    {
        let ps = Self::parse_parameters(data);
        let ghost pv = params(data@);
        proof {
            assert forall|j: int| 0 <= j < pv.len() implies #[trigger] ps@[j].0 == pv[j].0
                && ps@[j].1@ == pv[j].1 by {
                assert(ps@[j].0 == params(data@)[j].0);
            }
        }
        let mut media = NowPlayingMediaItem::default();
        let mut i: usize = 0;
        while i < ps.len()
            invariant
                i <= ps@.len(),
                ps@.len() == pv.len(),
                forall|j: int| 0 <= j < pv.len() ==> #[trigger] ps@[j].0 == pv[j].0 && ps@[j].1@ == pv[j].1,
                pv == params(data@),
                media@.title == last_value(pv.take(i as int), 0x0001, |p: Seq<u8>| text_value(p)),
                media@.duration_ms == last_value(pv.take(i as int), 0x0004, |p: Seq<u8>| u32_value(p)),
                media@.artist == last_value(pv.take(i as int), 0x000C, |p: Seq<u8>| text_value(p)),
                media@.album == last_value(pv.take(i as int), 0x001A, |p: Seq<u8>| text_value(p)),
            decreases ps@.len() - i,
        {
            let (param_id, payload) = ps[i];
            proof {
                lemma_last_value_step(pv, i as int, 0x0001, |p: Seq<u8>| text_value(p));
                lemma_last_value_step(pv, i as int, 0x0004, |p: Seq<u8>| u32_value(p));
                lemma_last_value_step(pv, i as int, 0x000C, |p: Seq<u8>| text_value(p));
                lemma_last_value_step(pv, i as int, 0x001A, |p: Seq<u8>| text_value(p));
            }
            if param_id == 0x0001 {
                match Self::parse_utf8(payload) {
                    Some(title) => {
                        media.title = Some(title);
                    },
                    None => {},
                }
            } else if param_id == 0x0004 {
                match Self::parse_u32(payload) {
                    Some(duration) => {
                        media.duration_ms = Some(duration);
                    },
                    None => {},
                }
            } else if param_id == 0x000C {
                match Self::parse_utf8(payload) {
                    Some(artist) => {
                        media.artist = Some(artist);
                    },
                    None => {},
                }
            } else if param_id == 0x001A {
                match Self::parse_utf8(payload) {
                    Some(album) => {
                        media.album = Some(album);
                    },
                    None => {},
                }
            }
            i = i + 1;
        }
        assert(pv.take(pv.len() as int) =~= pv);
        if media.title.is_some() || media.duration_ms.is_some() || media.artist.is_some()
            || media.album.is_some() {
            Some(media)
        } else {
            None
        }
    }

    /// Parses the playback group.
    pub fn parse_playback_group(data: &[u8]) -> (r: Option<NowPlayingPlayback>)
        ensures
            match r {
                Some(p) => playback_value(data@) == Some(p@),
                None => playback_value(data@) is None,
            },
    {
        let ps = Self::parse_parameters(data);
        let ghost pv = params(data@);
        proof {
            assert forall|j: int| 0 <= j < pv.len() implies #[trigger] ps@[j].0 == pv[j].0
                && ps@[j].1@ == pv[j].1 by {
                assert(ps@[j].0 == params(data@)[j].0);
            }
        }
        let mut playback = NowPlayingPlayback::default();
        let mut i: usize = 0;
        while i < ps.len()
            invariant
                i <= ps@.len(),
                ps@.len() == pv.len(),
                forall|j: int| 0 <= j < pv.len() ==> #[trigger] ps@[j].0 == pv[j].0 && ps@[j].1@ == pv[j].1,
                pv == params(data@),
                playback@.status == last_value(pv.take(i as int), 0x0000, |q: Seq<u8>| status_value(q)),
                playback@.elapsed_ms == last_value(pv.take(i as int), 0x0001, |q: Seq<u8>| u32_value(q)),
                playback@.shuffle_mode == last_value(pv.take(i as int), 0x0005, |q: Seq<u8>| shuffle_value(q)),
                playback@.repeat_mode == last_value(pv.take(i as int), 0x0006, |q: Seq<u8>| repeat_value(q)),
                playback@.app_name == last_value(pv.take(i as int), 0x0007, |q: Seq<u8>| text_value(q)),
            decreases ps@.len() - i,
        {
            let (param_id, payload) = ps[i];
            proof {
                lemma_last_value_step(pv, i as int, 0x0000, |q: Seq<u8>| status_value(q));
                lemma_last_value_step(pv, i as int, 0x0001, |q: Seq<u8>| u32_value(q));
                lemma_last_value_step(pv, i as int, 0x0005, |q: Seq<u8>| shuffle_value(q));
                lemma_last_value_step(pv, i as int, 0x0006, |q: Seq<u8>| repeat_value(q));
                lemma_last_value_step(pv, i as int, 0x0007, |q: Seq<u8>| text_value(q));
            }
            if param_id == 0x0000 {
                if payload.len() > 0 {
                    playback.status = Some(PlaybackStatus::from_u8(payload[0]));
                    assert(status_value(pv[i as int].1) == Some(playback_status_of(payload[0])));
                } else {
                    assert(status_value(pv[i as int].1) is None);
                }
            } else if param_id == 0x0001 {
                match Self::parse_u32(payload) {
                    Some(elapsed) => {
                        playback.elapsed_ms = Some(elapsed);
                    },
                    None => {},
                }
            } else if param_id == 0x0005 {
                if payload.len() > 0 {
                    playback.shuffle_mode = Some(ShuffleMode::from_u8(payload[0]));
                    assert(shuffle_value(pv[i as int].1) == Some(shuffle_mode_of(payload[0])));
                } else {
                    assert(shuffle_value(pv[i as int].1) is None);
                }
            } else if param_id == 0x0006 {
                if payload.len() > 0 {
                    playback.repeat_mode = Some(RepeatMode::from_u8(payload[0]));
                    assert(repeat_value(pv[i as int].1) == Some(repeat_mode_of(payload[0])));
                } else {
                    assert(repeat_value(pv[i as int].1) is None);
                }
            } else if param_id == 0x0007 {
                match Self::parse_utf8(payload) {
                    Some(app_name) => {
                        playback.app_name = Some(app_name);
                    },
                    None => {},
                }
            }
            i = i + 1;
        }
        assert(pv.take(pv.len() as int) =~= pv);
        if playback.status.is_some() || playback.elapsed_ms.is_some()
            || playback.shuffle_mode.is_some() || playback.repeat_mode.is_some()
            || playback.app_name.is_some() {
            Some(playback)
        } else {
            None
        }
    }

    /// The text of a string attribute.
    pub fn parse_utf8(payload: &[u8]) -> (r: Option<String>)
        ensures
            opt_text(r) == text_value(payload@),
    {
        if payload.len() == 0 {
            return None;
        }
        let mut end: usize = 0;
        while end < payload.len() && payload[end] != 0
            invariant
                end <= payload@.len(),
                forall|j: int| 0 <= j < end ==> payload@[j] != 0,
            decreases payload@.len() - end,
        {
            end = end + 1;
        }
        let trimmed = crate::packet::slice_range(payload, 0, end);
        proof {
            lemma_until_nul(payload@, end as int);
        }
        if trimmed.len() == 0 {
            return None;
        }
        let s = utf8_lossy(trimmed);
        Self::decoded_text(s)
    }

    /// The text of a string attribute once its bytes are decoded: nothing
    /// when it is replacement characters only or white space only.
    pub fn decoded_text(s: String) -> (r: Option<String>)
        ensures
            opt_text(r) == decoded_value(s@),
    {
        let n = s.as_str().unicode_len();
        let mut all_bad = true;
        let mut i: usize = 0;
        while i < n
            invariant
                i <= n,
                n == s@.len(),
                all_bad == forall|j: int| 0 <= j < i ==> #[trigger] s@[j] == '\u{FFFD}',
            decreases n - i,
        {
            if s.as_str().get_char(i) != '\u{FFFD}' {
                all_bad = false;
            }
            i = i + 1;
        }
        if all_bad {
            return None;
        }
        let t = trim_text(s.as_str());
        proof {
            lemma_trimmed_empty(s@, t@);
        }
        if t.unicode_len() == 0 {
            return None;
        }
        Some(s)
    }

    /// The big-endian value of the first four bytes.
    pub fn parse_u32(payload: &[u8]) -> (r: Option<u32>)
        ensures
            r == u32_value(payload@),
    {
        if payload.len() < 4 {
            return None;
        }
        Some(
            (payload[0] as u32) * 0x1000000 + (payload[1] as u32) * 0x10000 + (payload[2] as u32)
                * 0x100 + (payload[3] as u32),
        )
    }
}

/// Reading parameters after a prefix of the data is reading them in what
/// follows the prefix.
proof fn lemma_params_from_shift(pre: Seq<u8>, b: Seq<u8>, k: int)
    requires
        k >= 0,
    ensures
        params_from(pre + b, pre.len() + k) == params_from(b, k),
    decreases b.len() - k,
{
    let d = pre + b;
    let o = pre.len() + k;
    if k + 4 > b.len() {
    } else {
        assert(d[o] == b[k] && d[o + 1] == b[k + 1] && d[o + 2] == b[k + 2] && d[o + 3] == b[k + 3]);
        let len = be16_value(b[k], b[k + 1]);
        if len < 4 || k + len > b.len() {
        } else {
            assert(d.subrange(o + 4, o + len) =~= b.subrange(k + 4, k + len));
            lemma_params_from_shift(pre, b, k + len);
        }
    }
}

/// A parameter that the library writes is the first parameter that the
/// parameter reader finds, and the reader goes on with what follows it,
/// unless its length does not fit in 16 bits.
pub proof fn lemma_param_reads_back(id: u16, data: Seq<u8>, rest: Seq<u8>)
    requires
        data.len() + 4 <= 65535,
    ensures
        params(param(id, data) + rest) == seq![(id, data)] + params(rest),
{
    let p = param(id, data);
    let d = p + rest;
    let n = (data.len() + 4) as int;
    lemma_be16_reads_back(n);
    lemma_be16_reads_back(id as int);
    assert(d[0] == be16(n)[0] && d[1] == be16(n)[1]);
    assert(d[2] == be16(id as int)[0] && d[3] == be16(id as int)[1]);
    assert(d.subrange(4, n) =~= data);
    lemma_params_from_shift(p, rest, 0);
    assert(params_from(d, n) == params_from(rest, 0));
}

/// An update that carries only the playback group gives that group's
/// playback and no media item, whenever one of the group's attributes has a
/// value: a pause, a shuffle or repeat change or an application name alone
/// is an update.
pub proof fn lemma_playback_only_update(g: Seq<u8>, p: PlaybackView)
    requires
        g.len() + 4 <= 65535,
        playback_value(g) == Some(p),
    ensures
        now_playing_value(param(0x0001, g)) == Some(InfoView { media_item: None, playback: Some(p) }),
{
    let d = param(0x0001, g);
    lemma_param_reads_back(0x0001, g, Seq::empty());
    assert(d + Seq::<u8>::empty() =~= d);
    assert(params(Seq::<u8>::empty()) == Seq::<(u16, Seq<u8>)>::empty());
    let ps = params(d);
    assert(ps =~= seq![(0x0001u16, g)]);
    assert(ps.drop_last() =~= Seq::<(u16, Seq<u8>)>::empty());
    reveal_with_fuel(last_value, 2);
}

/// An update whose playback group holds only the playback status gives
/// that status, and nothing else, for every status byte.
pub proof fn lemma_status_only_update(b: u8)
    ensures
        now_playing_value(param(0x0001, param(0x0000, seq![b]))) == Some(
            InfoView {
                media_item: None,
                playback: Some(
                    PlaybackView {
                        status: Some(playback_status_of(b)),
                        elapsed_ms: None,
                        shuffle_mode: None,
                        repeat_mode: None,
                        app_name: None,
                    },
                ),
            },
        ),
{
    let g = param(0x0000, seq![b]);
    lemma_param_reads_back(0x0000, seq![b], Seq::empty());
    assert(g + Seq::<u8>::empty() =~= g);
    assert(params(Seq::<u8>::empty()) == Seq::<(u16, Seq<u8>)>::empty());
    let ps = params(g);
    assert(ps =~= seq![(0x0000u16, seq![b])]);
    assert(ps.drop_last() =~= Seq::<(u16, Seq<u8>)>::empty());
    reveal_with_fuel(last_value, 2);
    assert(first_byte(seq![b]) == Some(b));
    lemma_playback_only_update(g, playback_value(g)->0);
}

/// No parameter with id `id` gives a value through `f` exactly when the
/// last such value is none.
proof fn lemma_last_value_none<T>(ps: Seq<(u16, Seq<u8>)>, id: u16, f: spec_fn(Seq<u8>) -> Option<T>)
    ensures
        last_value(ps, id, f) is None <==> forall|i: int|
            0 <= i < ps.len() && #[trigger] ps[i].0 == id ==> f(ps[i].1) is None,
    decreases ps.len(),
{
    if ps.len() > 0 {
        lemma_last_value_none(ps.drop_last(), id, f);
        assert forall|i: int| 0 <= i < ps.len() - 1 implies #[trigger] ps[i] == ps.drop_last()[i] by {}
        if last_value(ps, id, f) is None {
            assert forall|i: int| 0 <= i < ps.len() && #[trigger] ps[i].0 == id implies f(ps[i].1) is None by {
                if i < ps.len() - 1 {
                    assert(ps.drop_last()[i] == ps[i]);
                }
            }
        } else {
            if ps.last().0 == id && f(ps.last().1) is Some {
                assert(ps[ps.len() - 1].0 == id);
            } else {
                let j = choose|j: int| 0 <= j < ps.len() - 1 && #[trigger] ps.drop_last()[j].0 == id
                    && f(ps.drop_last()[j].1) is Some;
                assert(ps[j] == ps.drop_last()[j]);
            }
        }
    }
}

/// An update is dropped only when it is empty or none of its media item and
/// playback groups yields a value.
pub proof fn lemma_update_dropped_only_without_values(d: Seq<u8>)
    ensures
        now_playing_value(d) is None <==> d.len() == 0 || forall|i: int|
            0 <= i < params(d).len() ==> {
                &&& (#[trigger] params(d)[i]).0 == 0x0000 ==> media_item_value(params(d)[i].1) is None
                &&& params(d)[i].0 == 0x0001 ==> playback_value(params(d)[i].1) is None
            },
{
    let ps = params(d);
    lemma_last_value_none(ps, 0x0000, |q: Seq<u8>| media_item_value(q));
    lemma_last_value_none(ps, 0x0001, |q: Seq<u8>| playback_value(q));
}

} // verus!
