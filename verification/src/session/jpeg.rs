//! The structural check of transferred artwork: a JPEG stream is walked
//! marker by marker up to its end-of-image marker, and anything after that
//! marker is trimmed unless it starts another image.

use vstd::prelude::*;

use crate::text::{decimal, hex_byte, owned, push_hex, push_number, push_text, with_hex, with_number};
use crate::wire::{be16_value, read_be16};

verus! {

/// The first position at or after `pos` that does not hold a `0xFF` fill byte.
pub open spec fn skip_fill(d: Seq<u8>, pos: int) -> int
    decreases d.len() - pos,
{
    if 0 <= pos < d.len() && d[pos] == 0xFF {
        skip_fill(d, pos + 1)
    } else {
        pos
    }
}

/// Markers that stand alone, without a length: TEM, the reserved 0x01, and
/// the restart markers RST0 to RST7.
pub open spec fn standalone_marker(m: u8) -> bool {
    m == 0x00 || m == 0x01 || (0xD0 <= m && m <= 0xD7)
}

/// The position just after the end-of-image marker that ends the entropy
/// coded data starting at `pos`, where stuffed `FF 00` bytes and restart
/// markers are part of the data.
pub open spec fn entropy_end(d: Seq<u8>, pos: int) -> Option<int>
    decreases d.len() - pos,
{
    if pos < 0 || pos >= d.len() - 1 {
        None
    } else if d[pos] == 0xFF && d[pos + 1] == 0xD9 {
        Some(pos + 2)
    } else if d[pos] == 0xFF && (d[pos + 1] == 0x00 || (0xD0 <= d[pos + 1] && d[pos + 1]
        <= 0xD7)) {
        entropy_end(d, pos + 2)
    } else {
        entropy_end(d, pos + 1)
    }
}

/// The position just after the end-of-image marker, walking the marker
/// segments from `pos`: bytes between markers are skipped, standalone
/// markers carry no length, a start-of-scan segment is followed by entropy
/// coded data, and every other segment is skipped by its length.
pub open spec fn markers_end(d: Seq<u8>, pos: int) -> Option<int>
    decreases d.len() - pos,
{
    if pos < 0 || pos >= d.len() {
        None
    } else if d[pos] != 0xFF {
        markers_end(d, pos + 1)
    } else {
        let p = skip_fill(d, pos);
        if p >= d.len() || p < pos {
            None
        } else {
            let marker = d[p];
            let q = p + 1;
            if marker == 0xD9 {
                Some(q)
            } else if standalone_marker(marker) {
                markers_end(d, q)
            } else if q + 2 > d.len() {
                None
            } else {
                let len = be16_value(d[q], d[q + 1]);
                if marker == 0xDA {
                    if len < 2 || q + len > d.len() {
                        None
                    } else {
                        entropy_end(d, q + len)
                    }
                } else if len < 2 || q + len > d.len() {
                    None
                } else {
                    markers_end(d, q + len)
                }
            }
        }
    }
}

/// The reason the marker walk from `pos` gives up, where it does: the
/// same walk as `markers_end`, naming what is broken.
pub open spec fn markers_error(d: Seq<u8>, pos: int) -> Seq<char>
    decreases d.len() - pos,
{
    if pos < 0 || pos >= d.len() {
        "missing JPEG EOI marker"@
    } else if d[pos] != 0xFF {
        markers_error(d, pos + 1)
    } else {
        let p = skip_fill(d, pos);
        if p >= d.len() || p < pos {
            "truncated JPEG marker"@
        } else {
            let marker = d[p];
            let q = p + 1;
            if marker == 0xD9 {
                Seq::empty()
            } else if standalone_marker(marker) {
                markers_error(d, q)
            } else if q + 2 > d.len() {
                if marker == 0xDA {
                    "truncated SOS header"@
                } else {
                    "truncated segment header for marker "@ + hex_byte(marker)
                }
            } else {
                let len = be16_value(d[q], d[q + 1]);
                if marker == 0xDA {
                    if len < 2 || q + len > d.len() {
                        "invalid SOS length: "@ + decimal(len as nat)
                    } else {
                        "missing EOI after scan data"@
                    }
                } else if len < 2 {
                    "invalid segment length "@ + decimal(len as nat) + " for marker "@ + hex_byte(
                        marker,
                    )
                } else if q + len > d.len() {
                    "truncated segment for marker "@ + hex_byte(marker) + ": need "@ + decimal(
                        len as nat,
                    ) + " bytes, have "@ + decimal((d.len() - q) as nat)
                } else {
                    markers_error(d, q + len)
                }
            }
        }
    }
}

/// The reason a byte string is not a JPEG image.
pub open spec fn jpeg_error(d: Seq<u8>) -> Seq<char> {
    if d.len() < 4 {
        "JPEG data too short"@
    } else if d[0] != 0xFF || d[1] != 0xD8 {
        "missing JPEG SOI marker"@
    } else {
        markers_error(d, 2)
    }
}

/// The first position at or after `from` where `FF D8` starts.
pub open spec fn first_start_marker(d: Seq<u8>, from: int) -> int
    decreases d.len() - from,
{
    if from < 0 || from >= d.len() - 1 {
        from
    } else if d[from] == 0xFF && d[from + 1] == 0xD8 {
        from
    } else {
        first_start_marker(d, from + 1)
    }
}

/// The reason artwork is refused: an empty payload where some was
/// announced, a broken JPEG structure, or another image after the first.
pub open spec fn artwork_error(d: Seq<u8>, expected_size: u64) -> Seq<char> {
    if d.len() == 0 {
        "artwork payload is empty"@
    } else {
        match jpeg_end(d) {
            None => jpeg_error(d),
            Some(e) => "corrupted: found additional JPEG SOI marker "@ + decimal(
                (first_start_marker(d, e) - e) as nat,
            ) + " bytes after EOI (total trailing: "@ + decimal((d.len() - e) as nat) + ")"@,
        }
    }
}

/// The length of the JPEG image at the start of `d`, up to and including its
/// end-of-image marker, or `None` where the structure is broken.
pub open spec fn jpeg_end(d: Seq<u8>) -> Option<int> {
    if d.len() < 4 {
        None
    } else if d[0] != 0xFF || d[1] != 0xD8 {
        None
    } else {
        markers_end(d, 2)
    }
}

/// Whether `FF D8`, the start of another image, occurs at or after `from`.
pub open spec fn has_start_marker_from(d: Seq<u8>, from: int) -> bool {
    exists|i: int| from <= i < d.len() - 1 && #[trigger] d[i] == 0xFF && d[i + 1] == 0xD8
}

/// The artwork that is kept: an empty payload where none was announced, or
/// the JPEG image with trailing bytes cut, unless the structure is broken
/// or another image follows.
pub open spec fn sanitized(d: Seq<u8>, expected_size: u64) -> Option<Seq<u8>> {
    if d.len() == 0 {
        if expected_size == 0 {
            Some(d)
        } else {
            None
        }
    } else {
        match jpeg_end(d) {
            None => None,
            Some(e) => if has_start_marker_from(d, e) {
                None
            } else {
                Some(d.take(e))
            },
        }
    }
}

proof fn lemma_skip_fill_bounds(d: Seq<u8>, pos: int)
    requires
        0 <= pos <= d.len(),
    ensures
        pos <= skip_fill(d, pos) <= d.len(),
        forall|i: int| pos <= i < skip_fill(d, pos) ==> d[i] == 0xFF,
    decreases d.len() - pos,
{
    if pos < d.len() && d[pos] == 0xFF {
        lemma_skip_fill_bounds(d, pos + 1);
    }
}

proof fn lemma_entropy_end_marker(d: Seq<u8>, pos: int)
    ensures
        entropy_end(d, pos) matches Some(e) ==> pos + 2 <= e <= d.len() && d[e - 2] == 0xFF
            && d[e - 1] == 0xD9,
    decreases d.len() - pos,
{
    if pos < 0 || pos >= d.len() - 1 {
    } else if d[pos] == 0xFF && d[pos + 1] == 0xD9 {
    } else if d[pos] == 0xFF && (d[pos + 1] == 0x00 || (0xD0 <= d[pos + 1] && d[pos + 1]
        <= 0xD7)) {
        lemma_entropy_end_marker(d, pos + 2);
    } else {
        lemma_entropy_end_marker(d, pos + 1);
    }
}

proof fn lemma_markers_end_marker(d: Seq<u8>, pos: int)
    ensures
        markers_end(d, pos) matches Some(e) ==> pos + 2 <= e <= d.len() && d[e - 2] == 0xFF
            && d[e - 1] == 0xD9,
    decreases d.len() - pos,
{
    if pos < 0 || pos >= d.len() {
    } else if d[pos] != 0xFF {
        lemma_markers_end_marker(d, pos + 1);
    } else {
        lemma_skip_fill_bounds(d, pos);
        let p = skip_fill(d, pos);
        if p >= d.len() || p < pos {
        } else {
            let marker = d[p];
            let q = p + 1;
            if marker == 0xD9 {
                assert(p > pos) by {
                    if p == pos {
                        assert(d[pos] == 0xFF);
                    }
                }
                assert(d[p - 1] == 0xFF);
            } else if standalone_marker(marker) {
                lemma_markers_end_marker(d, q);
            } else if q + 2 > d.len() {
            } else {
                let len = be16_value(d[q], d[q + 1]);
                if marker == 0xDA {
                    if len < 2 || q + len > d.len() {
                    } else {
                        lemma_entropy_end_marker(d, q + len);
                    }
                } else if len < 2 || q + len > d.len() {
                } else {
                    lemma_markers_end_marker(d, q + len);
                }
            }
        }
    }
}

/// The first start marker at or after `from` is the one at `k` when none
/// comes between.
proof fn lemma_first_start_marker(d: Seq<u8>, from: int, k: int)
    requires
        0 <= from <= k < d.len() - 1,
        d[k] == 0xFF && d[k + 1] == 0xD8,
        forall|j: int| from <= j < k ==> !(#[trigger] d[j] == 0xFF && d[j + 1] == 0xD8),
    ensures
        first_start_marker(d, from) == k,
    decreases k - from,
{
    if from < k {
        lemma_first_start_marker(d, from + 1, k);
    }
}

/// Kept artwork is the start of the received bytes; unless it is the empty
/// payload, it starts with the start-of-image marker `FF D8` and ends with
/// the end-of-image marker `FF D9`, and nothing after it starts another image.
pub proof fn lemma_sanitized_is_an_image(d: Seq<u8>, expected_size: u64)
    ensures
        sanitized(d, expected_size) matches Some(a) ==> {
            &&& a.len() <= d.len()
            &&& a == d.take(a.len() as int)
            &&& a.len() == 0 ==> d.len() == 0 && expected_size == 0
            &&& a.len() > 0 ==> {
                &&& a.len() >= 4
                &&& a[0] == 0xFF && a[1] == 0xD8
                &&& a[a.len() - 2] == 0xFF && a[a.len() - 1] == 0xD9
                &&& !has_start_marker_from(d, a.len() as int)
            }
        },
{
    if d.len() == 0 {
        assert(d.take(0) =~= d);
    } else if let Some(e) = jpeg_end(d) {
        lemma_markers_end_marker(d, 2);
        assert(d.take(e).take(e) =~= d.take(e));
    }
}

/// Walks the marker segments of a JPEG image and gives the length up to and
/// including its end-of-image marker, or what is broken.
pub fn validate_jpeg_structure(data: &[u8]) -> (r: Result<usize, String>)
    ensures
        match r {
            Ok(n) => jpeg_end(data@) == Some(n as int),
            Err(m) => jpeg_end(data@) is None && m@ == jpeg_error(data@),
        },
{
    if data.len() < 4 {
        return Err(owned("JPEG data too short"));
    }
    if data[0] != 0xFF || data[1] != 0xD8 {
        return Err(owned("missing JPEG SOI marker"));
    }
    let ghost d = data@;
    let mut pos: usize = 2;
    while pos < data.len()
        invariant
            d == data@,
            d.len() >= 4,
            jpeg_end(d) == markers_end(d, 2),
            jpeg_error(d) == markers_error(d, 2),
            2 <= pos <= d.len(),
            markers_end(d, 2) == markers_end(d, pos as int),
            markers_error(d, 2) == markers_error(d, pos as int),
        decreases d.len() - pos,
    {
        if data[pos] != 0xFF {
            pos = pos + 1;
            continue;
        }
        let ghost start = pos as int;
        proof {
            lemma_skip_fill_bounds(d, start);
        }
        while pos < data.len() && data[pos] == 0xFF
            invariant
                d == data@,
                d.len() >= 4,
                jpeg_end(d) == markers_end(d, 2),
                2 <= start <= pos <= d.len(),
                d[start] == 0xFF,
                markers_end(d, 2) == markers_end(d, start),
                jpeg_error(d) == markers_error(d, 2),
                markers_error(d, 2) == markers_error(d, start),
                skip_fill(d, start) == skip_fill(d, pos as int),
            decreases d.len() - pos,
        {
            pos = pos + 1;
        }
        if pos >= data.len() {
            return Err(owned("truncated JPEG marker"));
        }
        let marker = data[pos];
        proof {
            assert(skip_fill(d, pos as int) == pos);
        }
        pos = pos + 1;
        if marker == 0xD9 {
            return Ok(pos);
        }
        if marker == 0x00 || marker == 0x01 || (0xD0 <= marker && marker <= 0xD7) {
            continue;
        }
        if marker == 0xDA {
            if data.len() - pos < 2 {
                return Err(owned("truncated SOS header"));
            }
            let sos_len = read_be16(data[pos], data[pos + 1]) as usize;
            if sos_len < 2 || sos_len > data.len() - pos {
                let mut msg = owned("invalid SOS length: ");
                push_number(&mut msg, sos_len as u64);
                return Err(msg);
            }
            pos = pos + sos_len;
            let ghost scan_start = pos as int;
            while pos < data.len() - 1
                invariant
                    d == data@,
                    d.len() >= 4,
                    jpeg_end(d) == markers_end(d, 2),
                    scan_start <= pos <= d.len(),
                    markers_end(d, 2) == entropy_end(d, scan_start),
                    jpeg_error(d) == "missing EOI after scan data"@,
                    entropy_end(d, scan_start) == entropy_end(d, pos as int),
                decreases d.len() - pos,
            {
                if data[pos] == 0xFF {
                    let next = data[pos + 1];
                    if next == 0xD9 {
                        return Ok(pos + 2);
                    }
                    if next == 0x00 || (0xD0 <= next && next <= 0xD7) {
                        pos = pos + 2;
                        continue;
                    }
                }
                pos = pos + 1;
            }
            return Err(owned("missing EOI after scan data"));
        }
        if data.len() - pos < 2 {
            return Err(with_hex("truncated segment header for marker ", marker));
        }
        let seg_len = read_be16(data[pos], data[pos + 1]) as usize;
        if seg_len < 2 {
            let mut msg = with_number("invalid segment length ", seg_len as u64, " for marker ");
            push_hex(&mut msg, marker);
            return Err(msg);
        }
        if seg_len > data.len() - pos {
            let mut msg = with_hex("truncated segment for marker ", marker);
            push_text(&mut msg, ": need ");
            push_number(&mut msg, seg_len as u64);
            push_text(&mut msg, " bytes, have ");
            push_number(&mut msg, (data.len() - pos) as u64);
            return Err(msg);
        }
        pos = pos + seg_len;
    }
    Err(owned("missing JPEG EOI marker"))
}

/// Checks received artwork and trims bytes after its end-of-image marker;
/// an empty payload passes only where none was announced, and artwork
/// followed by the start of another image is refused.
pub fn sanitize_artwork(data: &mut Vec<u8>, expected_size: u64) -> (r: Result<
    (),
    String,
>)
    ensures
        match r {
            Ok(()) => sanitized(old(data)@, expected_size) == Some(final(data)@),
            Err(m) => sanitized(old(data)@, expected_size) is None && final(data)@ == old(
                data,
            )@ && m@ == artwork_error(old(data)@, expected_size),
        },
{
    if data.len() == 0 {
        if expected_size == 0 {
            return Ok(());
        } else {
            return Err(owned("artwork payload is empty"));
        }
    }
    let end_pos = match validate_jpeg_structure(data.as_slice()) {
        Ok(e) => e,
        Err(msg) => return Err(msg),
    };
    let ghost d = data@;
    proof {
        lemma_markers_end_marker(d, 2);
    }
    if end_pos < data.len() {
        let trailing = data.len() - end_pos;
        let limit = trailing - 1;
        let mut i: usize = 0;
        while i < limit
            invariant
                d == data@,
                end_pos + trailing == d.len(),
                limit + 1 == trailing,
                d.len() <= usize::MAX,
                i <= limit,
                d == old(data)@,
                jpeg_end(d) == Some(end_pos as int),
                end_pos <= d.len(),
                forall|j: int|
                    end_pos <= j < end_pos + i ==> !(#[trigger] d[j] == 0xFF && d[j + 1] == 0xD8),
            decreases limit - i,
        {
            if data[end_pos + i] == 0xFF && data[end_pos + i + 1] == 0xD8 {
                let mut msg = with_number(
                    "corrupted: found additional JPEG SOI marker ",
                    i as u64,
                    " bytes after EOI (total trailing: ",
                );
                push_number(&mut msg, trailing as u64);
                push_text(&mut msg, ")");
                proof {
                    assert(has_start_marker_from(d, end_pos as int)) by {
                        let k = end_pos + i;
                        assert(d[k] == 0xFF && d[k + 1] == 0xD8);
                    }
                    lemma_first_start_marker(d, end_pos as int, end_pos + i);
                }
                return Err(msg);
            }
            i = i + 1;
        }
        proof {
            assert(!has_start_marker_from(d, end_pos as int)) by {
                if has_start_marker_from(d, end_pos as int) {
                    let k = choose|k: int|
                        end_pos <= k < d.len() - 1 && #[trigger] d[k] == 0xFF && d[k + 1] == 0xD8;
                    assert(!(d[k] == 0xFF && d[k + 1] == 0xD8));
                }
            }
        }
        data.truncate(end_pos);
        assert(data@ =~= d.take(end_pos as int));
    } else {
        proof {
            assert(!has_start_marker_from(d, end_pos as int));
            assert(d.take(end_pos as int) =~= d);
        }
    }
    Ok(())
}

} // verus!
