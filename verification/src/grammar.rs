//! Mathematical model of the file format: total specification functions
//! over a byte sequence and a cursor, one per record kind. Each returns
//! either the decoded value with the cursor after it, or the kind and byte
//! offset of the failure. The executable decoders in `parsers` are proved
//! to return exactly what these functions say.

use vstd::prelude::*;

use crate::models::{
    BoundingBox, ChunkIdentifier, ErrorKind, LatLong, Line, ParseError, SpecDatabase,
    SpecFileHeader, SpecFooter, SpecRegion, SpecTrack, StartFinish, spec_chunk_id, REGION_COUNT,
    TAG_COMBO_FLAG, TAG_FINISH_LINE, TAG_START_LINE, TAG_TRACK_NAME,
};

verus! {

/// The characters that lossy UTF-8 decoding yields for a byte sequence:
/// valid UTF-8 decodes to its characters, invalid sequences become
/// replacement characters. The result depends on the bytes alone.
pub uninterp spec fn utf8_lossy_of(bytes: Seq<u8>) -> Seq<char>;

/// Mathematical model of one decoded track attribute sub-chunk.
pub ghost enum SpecTrackData {
    TrackName(Seq<char>),
    StartLine(Line),
    ComboFlag,
    FinishLine(Line),
}

/// The unsigned value of two little-endian bytes at `pos`.
pub open spec fn le_u16_at(s: Seq<u8>, pos: int) -> u16
    recommends
        0 <= pos,
        pos + 2 <= s.len(),
{
    (s[pos] + 256 * s[pos + 1]) as u16
}

/// The unsigned value of four little-endian bytes at `pos`.
pub open spec fn le_u32_at(s: Seq<u8>, pos: int) -> int
    recommends
        0 <= pos,
        pos + 4 <= s.len(),
{
    s[pos] + 256 * s[pos + 1] + 65536 * s[pos + 2] + 16777216 * s[pos + 3]
}

/// The two's-complement signed value of four little-endian bytes at `pos`.
pub open spec fn le_i32_at(s: Seq<u8>, pos: int) -> i32
    recommends
        0 <= pos,
        pos + 4 <= s.len(),
{
    let n = le_u32_at(s, pos);
    if n >= 0x8000_0000 {
        (n - 0x1_0000_0000) as i32
    } else {
        n as i32
    }
}

/// The raw coordinate pair stored in the eight bytes at `pos`.
pub open spec fn lat_long_at(s: Seq<u8>, pos: int) -> LatLong
    recommends
        0 <= pos,
        pos + 8 <= s.len(),
{
    LatLong { lat: le_i32_at(s, pos), long: le_i32_at(s, pos + 4) }
}

/// Decoding of the chunk identifier byte at `pos`.
pub open spec fn spec_parse_chunk_id(s: Seq<u8>, pos: int) -> Result<
    (ChunkIdentifier, int),
    (ErrorKind, int),
> {
    if pos + 1 <= s.len() {
        match spec_chunk_id(s[pos]) {
            Some(id) => Ok((id, pos + 1)),
            None => Err((ErrorKind::UnexpectedTag, pos)),
        }
    } else {
        Err((ErrorKind::Truncated, pos))
    }
}

/// Decoding of a raw coordinate pair: two little-endian signed 32-bit
/// integers, eight bytes in all.
pub open spec fn spec_parse_lat_long(s: Seq<u8>, pos: int) -> Result<
    (LatLong, int),
    (ErrorKind, int),
> {
    if pos + 8 <= s.len() {
        Ok((lat_long_at(s, pos), pos + 8))
    } else {
        Err((ErrorKind::Truncated, pos))
    }
}

/// Decoding of a bounding box: two coordinate pairs in file order.
pub open spec fn spec_parse_bounding_box(s: Seq<u8>, pos: int) -> Result<
    (BoundingBox, int),
    (ErrorKind, int),
> {
    if pos + 16 <= s.len() {
        Ok((BoundingBox { corner_1: lat_long_at(s, pos), corner_2: lat_long_at(s, pos + 8) }, pos + 16))
    } else {
        Err((ErrorKind::Truncated, pos))
    }
}

/// Decoding of a line segment: two coordinate pairs.
pub open spec fn spec_parse_line(s: Seq<u8>, pos: int) -> Result<(Line, int), (ErrorKind, int)> {
    if pos + 16 <= s.len() {
        Ok((Line { point_1: lat_long_at(s, pos), point_2: lat_long_at(s, pos + 8) }, pos + 16))
    } else {
        Err((ErrorKind::Truncated, pos))
    }
}

/// Decoding of one attribute sub-chunk inside a track body: a tag byte, a
/// one-byte declared total size, two padding bytes (consumed, not checked),
/// and a payload that depends on the tag. A tag byte that is not one of the
/// four attribute tags fails with `UnknownAttribute` at the sub-chunk start.
pub open spec fn spec_parse_track_data(s: Seq<u8>, pos: int) -> Result<
    (SpecTrackData, int),
    (ErrorKind, int),
> {
    if pos + 1 > s.len() {
        Err((ErrorKind::Truncated, pos))
    } else {
        let tag = s[pos];
        if tag != TAG_TRACK_NAME && tag != TAG_START_LINE && tag != TAG_FINISH_LINE && tag
            != TAG_COMBO_FLAG {
            Err((ErrorKind::UnknownAttribute, pos))
        } else if pos + 4 > s.len() {
            Err((ErrorKind::Truncated, pos))
        } else {
            let len = s[pos + 1] as int;
            if tag == TAG_TRACK_NAME {
                if len < 4 {
                    Err((ErrorKind::LengthMismatch, pos))
                } else if pos + len > s.len() {
                    Err((ErrorKind::Truncated, pos))
                } else {
                    Ok((SpecTrackData::TrackName(utf8_lossy_of(s.subrange(pos + 4, pos + len))), pos + len))
                }
            } else if tag == TAG_START_LINE {
                match spec_parse_line(s, pos + 4) {
                    Ok((l, next)) => Ok((SpecTrackData::StartLine(l), next)),
                    Err(e) => Err(e),
                }
            } else if tag == TAG_FINISH_LINE {
                match spec_parse_line(s, pos + 4) {
                    Ok((l, next)) => Ok((SpecTrackData::FinishLine(l), next)),
                    Err(e) => Err(e),
                }
            } else {
                if pos + 5 > s.len() {
                    Err((ErrorKind::Truncated, pos))
                } else {
                    Ok((SpecTrackData::ComboFlag, pos + 5))
                }
            }
        }
    }
}

/// Decoding of the run of attribute sub-chunks that fills a track body
/// exactly: the cursor must land on `end` with no byte left over. An
/// attribute that would extend past `end` fails with `LengthMismatch` at its
/// start.
pub open spec fn spec_parse_track_attrs(s: Seq<u8>, pos: int, end: int) -> Result<
    Seq<SpecTrackData>,
    (ErrorKind, int),
>
    decreases end - pos,
{
    if pos >= end {
        Ok(Seq::empty())
    } else {
        match spec_parse_track_data(s, pos) {
            Ok((attr, next)) => {
                if pos < next <= end {
                    match spec_parse_track_attrs(s, next, end) {
                        Ok(rest) => Ok(seq![attr] + rest),
                        Err(e) => Err(e),
                    }
                } else {
                    Err((ErrorKind::LengthMismatch, pos))
                }
            },
            Err(e) => Err(e),
        }
    }
}

/// The first track name among the decoded attributes, if any; where the
/// attribute appears more than once, the first occurrence wins.
pub open spec fn spec_first_name(attrs: Seq<SpecTrackData>) -> Option<Seq<char>>
    decreases attrs.len(),
{
    if attrs.len() == 0 {
        None
    } else {
        match attrs[0] {
            SpecTrackData::TrackName(n) => Some(n),
            _ => spec_first_name(attrs.drop_first()),
        }
    }
}

/// The first start line among the decoded attributes, if any.
pub open spec fn spec_first_start(attrs: Seq<SpecTrackData>) -> Option<Line>
    decreases attrs.len(),
{
    if attrs.len() == 0 {
        None
    } else {
        match attrs[0] {
            SpecTrackData::StartLine(l) => Some(l),
            _ => spec_first_start(attrs.drop_first()),
        }
    }
}

/// The first finish line among the decoded attributes, if any.
pub open spec fn spec_first_finish(attrs: Seq<SpecTrackData>) -> Option<Line>
    decreases attrs.len(),
{
    if attrs.len() == 0 {
        None
    } else {
        match attrs[0] {
            SpecTrackData::FinishLine(l) => Some(l),
            _ => spec_first_finish(attrs.drop_first()),
        }
    }
}

/// Whether a combo-flag attribute appears at all among the decoded
/// attributes.
pub open spec fn spec_has_combo(attrs: Seq<SpecTrackData>) -> bool
    decreases attrs.len(),
{
    if attrs.len() == 0 {
        false
    } else {
        attrs[0] is ComboFlag || spec_has_combo(attrs.drop_first())
    }
}

/// Aggregation of a track from its bounding box and decoded attributes: the
/// name is required; a start line alone makes a circuit, start and finish
/// together a point-to-point course, and a track without a start line has no
/// valid geometry.
pub open spec fn spec_build_track(bbox: BoundingBox, attrs: Seq<SpecTrackData>) -> Result<
    SpecTrack,
    ErrorKind,
> {
    match spec_first_name(attrs) {
        None => Err(ErrorKind::MissingField),
        Some(name) => match (spec_first_start(attrs), spec_first_finish(attrs)) {
            (Some(start), Some(finish)) => Ok(
                SpecTrack {
                    name,
                    bounding_box: bbox,
                    start_finish: StartFinish::PointToPoint { start, finish },
                    combo: spec_has_combo(attrs),
                },
            ),
            (Some(start), None) => Ok(
                SpecTrack {
                    name,
                    bounding_box: bbox,
                    start_finish: StartFinish::Circuit(start),
                    combo: spec_has_combo(attrs),
                },
            ),
            (None, _) => Err(ErrorKind::MissingField),
        },
    }
}

/// Decoding of one track record: tag, two-byte declared total length, one
/// padding byte, bounding box, then attribute sub-chunks filling exactly
/// `declared length - 20` bytes. The declared length must cover at least the
/// 20-byte fixed part and must fit in the remaining input.
pub open spec fn spec_parse_track_chunk(s: Seq<u8>, pos: int) -> Result<
    (SpecTrack, int),
    (ErrorKind, int),
> {
    if pos + 1 > s.len() {
        Err((ErrorKind::Truncated, pos))
    } else if spec_chunk_id(s[pos]) != Some(ChunkIdentifier::Track) {
        Err((ErrorKind::UnexpectedTag, pos))
    } else if pos + 4 > s.len() {
        Err((ErrorKind::Truncated, pos))
    } else {
        let len = le_u16_at(s, pos + 1) as int;
        if len < 20 {
            Err((ErrorKind::LengthMismatch, pos))
        } else if pos + len > s.len() {
            Err((ErrorKind::Truncated, pos))
        } else {
            match spec_parse_bounding_box(s, pos + 4) {
                Err(e) => Err(e),
                Ok((bbox, _)) => match spec_parse_track_attrs(s, pos + 20, pos + len) {
                    Err(e) => Err(e),
                    Ok(attrs) => match spec_build_track(bbox, attrs) {
                        Ok(t) => Ok((t, pos + len)),
                        Err(k) => Err((k, pos)),
                    },
                },
            }
        }
    }
}

/// Decoding of the run of track records that fills a region body exactly: the
/// cursor must land on `end` with no byte left over.
pub open spec fn spec_parse_region_tracks(s: Seq<u8>, pos: int, end: int) -> Result<
    Seq<SpecTrack>,
    (ErrorKind, int),
>
    decreases end - pos,
{
    if pos >= end {
        Ok(Seq::empty())
    } else {
        match spec_parse_track_chunk(s, pos) {
            Ok((t, next)) => {
                if pos < next <= end {
                    match spec_parse_region_tracks(s, next, end) {
                        Ok(rest) => Ok(seq![t] + rest),
                        Err(e) => Err(e),
                    }
                } else {
                    Err((ErrorKind::LengthMismatch, pos))
                }
            },
            Err(e) => Err(e),
        }
    }
}

/// Decoding of one region record: tag, two-byte declared total length, one
/// padding byte, bounding box, then track records filling exactly
/// `declared length - 20` bytes (zero or more tracks).
pub open spec fn spec_parse_region_chunk(s: Seq<u8>, pos: int) -> Result<
    (SpecRegion, int),
    (ErrorKind, int),
> {
    if pos + 1 > s.len() {
        Err((ErrorKind::Truncated, pos))
    } else if spec_chunk_id(s[pos]) != Some(ChunkIdentifier::Region) {
        Err((ErrorKind::UnexpectedTag, pos))
    } else if pos + 4 > s.len() {
        Err((ErrorKind::Truncated, pos))
    } else {
        let len = le_u16_at(s, pos + 1) as int;
        if len < 20 {
            Err((ErrorKind::LengthMismatch, pos))
        } else if pos + len > s.len() {
            Err((ErrorKind::Truncated, pos))
        } else {
            match spec_parse_bounding_box(s, pos + 4) {
                Err(e) => Err(e),
                Ok((bbox, _)) => match spec_parse_region_tracks(s, pos + 20, pos + len) {
                    Err(e) => Err(e),
                    Ok(tracks) => Ok((SpecRegion { bounding_box: bbox, tracks }, pos + len)),
                },
            }
        }
    }
}

/// Decoding of the file header: tag, two-byte length field (read and
/// ignored), one padding byte, year, month, day, and eight reserved bytes
/// kept verbatim. Sixteen bytes in all.
pub open spec fn spec_parse_file_header(s: Seq<u8>, pos: int) -> Result<
    (SpecFileHeader, int),
    (ErrorKind, int),
> {
    if pos + 1 > s.len() {
        Err((ErrorKind::Truncated, pos))
    } else if spec_chunk_id(s[pos]) != Some(ChunkIdentifier::FileHeader) {
        Err((ErrorKind::UnexpectedTag, pos))
    } else if pos + 16 > s.len() {
        Err((ErrorKind::Truncated, pos))
    } else {
        Ok(
            (
                SpecFileHeader {
                    year: le_u16_at(s, pos + 4),
                    month: s[pos + 6],
                    day: s[pos + 7],
                    data: s.subrange(pos + 8, pos + 16),
                },
                pos + 16,
            ),
        )
    }
}

/// Decoding of the file footer: tag, two-byte length field (read and
/// ignored), one padding byte, and four reserved bytes kept verbatim. Eight
/// bytes in all.
pub open spec fn spec_parse_footer(s: Seq<u8>, pos: int) -> Result<
    (SpecFooter, int),
    (ErrorKind, int),
> {
    if pos + 1 > s.len() {
        Err((ErrorKind::Truncated, pos))
    } else if spec_chunk_id(s[pos]) != Some(ChunkIdentifier::FileFooter) {
        Err((ErrorKind::UnexpectedTag, pos))
    } else if pos + 8 > s.len() {
        Err((ErrorKind::Truncated, pos))
    } else {
        Ok((SpecFooter { data: s.subrange(pos + 4, pos + 8) }, pos + 8))
    }
}

/// Decoding of `n` region records back to back, starting at `pos`.
pub open spec fn spec_parse_regions(s: Seq<u8>, pos: int, n: nat) -> Result<
    (Seq<SpecRegion>, int),
    (ErrorKind, int),
>
    decreases n,
{
    if n == 0 {
        Ok((Seq::empty(), pos))
    } else {
        match spec_parse_region_chunk(s, pos) {
            Ok((r, next)) => match spec_parse_regions(s, next, (n - 1) as nat) {
                Ok((rest, end)) => Ok((seq![r] + rest, end)),
                Err(e) => Err(e),
            },
            Err(e) => Err(e),
        }
    }
}

/// Decoding of the whole database: file header, exactly `REGION_COUNT`
/// region records, then the footer. Bytes after the footer are ignored.
pub open spec fn spec_parse_track_database(s: Seq<u8>, pos: int) -> Result<
    (SpecDatabase, int),
    (ErrorKind, int),
> {
    match spec_parse_file_header(s, pos) {
        Err(e) => Err(e),
        Ok((hdr, p1)) => match spec_parse_regions(s, p1, REGION_COUNT as nat) {
            Err(e) => Err(e),
            Ok((regions, p2)) => match spec_parse_footer(s, p2) {
                Err(e) => Err(e),
                Ok((footer, p3)) => Ok((SpecDatabase { hdr, regions, footer }, p3)),
            },
        },
    }
}

/// Holds of an executable result exactly when the specification function
/// yields this value with this cursor.
pub open spec fn ok_at<T>(r: Result<(T, int), (ErrorKind, int)>, v: T, next: int) -> bool {
    r == Ok::<(T, int), (ErrorKind, int)>((v, next))
}

/// Holds of an executable result exactly when the specification function
/// fails with this error's kind at this error's offset.
pub open spec fn err_at<T>(r: Result<(T, int), (ErrorKind, int)>, e: ParseError) -> bool {
    r == Err::<(T, int), (ErrorKind, int)>((e.kind, e.pos as int))
}

} // verus!
