//! Executable decoders for the file format. Each function walks the byte
//! buffer with an explicit cursor and is proved to return exactly what the
//! corresponding specification function in `grammar` says: the decoded
//! value and the cursor after it on success, and the failure's kind and
//! offset otherwise.

use vstd::prelude::*;
use vstd::slice::slice_index_get;
use vstd::slice::slice_subrange;

use crate::grammar::{
    err_at, le_i32_at, le_u16_at, ok_at, spec_parse_bounding_box, spec_parse_chunk_id,
    spec_parse_file_header, spec_parse_footer, spec_parse_lat_long, spec_parse_line,
    spec_parse_region_chunk, spec_parse_region_tracks, spec_parse_regions,
    spec_parse_track_attrs, spec_parse_track_chunk, spec_parse_track_data,
    spec_parse_track_database, spec_first_finish, spec_first_name, spec_first_start,
    spec_has_combo, utf8_lossy_of, SpecTrackData,
};
use crate::models::{
    BoundingBox, ChunkIdentifier, ErrorKind, FileHeader, Footer, LatLong, Line, ParseError,
    Region, SpecRegion, SpecTrack, StartFinish,
    TrackChunk, TrackDatabase, view_regions, view_tracks, REGION_COUNT, TAG_COMBO_FLAG,
    TAG_FILE_FOOTER, TAG_FILE_HEADER, TAG_FINISH_LINE, TAG_REGION, TAG_START_LINE, TAG_TRACK,
    TAG_TRACK_NAME,
};

verus! {

/// One decoded attribute sub-chunk from a track body.
#[derive(Debug)]
pub enum TrackData {
    TrackName(String),
    StartLine(Line),
    ComboFlag,
    FinishLine(Line),
}

impl View for TrackData {
    type V = SpecTrackData;

    open spec fn view(&self) -> SpecTrackData {
        match self {
            TrackData::TrackName(n) => SpecTrackData::TrackName(n@),
            TrackData::StartLine(l) => SpecTrackData::StartLine(*l),
            TrackData::ComboFlag => SpecTrackData::ComboFlag,
            TrackData::FinishLine(l) => SpecTrackData::FinishLine(*l),
        }
    }
}

/// The views of a sequence of decoded attributes.
pub open spec fn view_attrs(v: Seq<TrackData>) -> Seq<SpecTrackData> {
    v.map(|i: int, a: TrackData| a@)
}


/// Relies on String::from_utf8_lossy: the characters depend on the bytes
/// alone; invalid sequences are replaced rather than rejected.
#[verifier::external_body]
fn lossy_string(bytes: &[u8]) -> (r: String)
    ensures
        r@ == utf8_lossy_of(bytes@),
{
    String::from_utf8_lossy(bytes).into_owned()
}

/// Reads the little-endian unsigned 16-bit value at `pos`.
fn read_u16_le(input: &[u8], pos: usize) -> (r: u16)
    requires
        pos + 2 <= input@.len(),
    ensures
        r == le_u16_at(input@, pos as int),
{
    let _n = input.len();
    let b0 = *slice_index_get(input, pos);
    let b1 = *slice_index_get(input, pos + 1);
    b0 as u16 + (b1 as u16) * 256
}

/// Reads the little-endian signed 32-bit value at `pos`.
fn read_i32_le(input: &[u8], pos: usize) -> (r: i32)
    requires
        pos + 4 <= input@.len(),
    ensures
        r == le_i32_at(input@, pos as int),
{
    let _n = input.len();
    let b0 = *slice_index_get(input, pos);
    let b1 = *slice_index_get(input, pos + 1);
    let b2 = *slice_index_get(input, pos + 2);
    let b3 = *slice_index_get(input, pos + 3);
    let n: u32 = b0 as u32 + (b1 as u32) * 256 + (b2 as u32) * 65536 + (b3 as u32) * 16777216;
    if n >= 0x8000_0000 {
        -((0xFFFF_FFFFu32 - n) as i32) - 1
    } else {
        n as i32
    }
}

/// Decodes the chunk identifier byte at `pos`.
pub fn parse_chunk_id(input: &[u8], pos: usize) -> (r: Result<(ChunkIdentifier, usize), ParseError>)
    ensures
        match r {
            Ok((id, next)) => ok_at(spec_parse_chunk_id(input@, pos as int), id, next as int)
                && next == pos + 1,
            Err(e) => err_at(spec_parse_chunk_id(input@, pos as int), e),
        },
{
    if pos >= input.len() {
        return Err(ParseError { kind: ErrorKind::Truncated, pos });
    }
    let b = *slice_index_get(input, pos);
    match ChunkIdentifier::try_from(b) {
        Ok(id) => Ok((id, pos + 1)),
        Err(()) => Err(ParseError { kind: ErrorKind::UnexpectedTag, pos }),
    }
}

/// Decodes the raw coordinate pair stored in the eight bytes at `pos`.
pub fn parse_lat_long_raw(input: &[u8], pos: usize) -> (r: Result<(LatLong, usize), ParseError>)
    ensures
        match r {
            Ok((v, next)) => ok_at(spec_parse_lat_long(input@, pos as int), v, next as int)
                && next == pos + 8 && next <= input@.len(),
            Err(e) => err_at(spec_parse_lat_long(input@, pos as int), e),
        },
{
    let n = input.len();
    if n < 8 || pos > n - 8 {
        return Err(ParseError { kind: ErrorKind::Truncated, pos });
    }
    let lat = read_i32_le(input, pos);
    let long = read_i32_le(input, pos + 4);
    Ok((LatLong { lat, long }, pos + 8))
}

/// Decodes a bounding box: two coordinate pairs in file order.
pub fn parse_bounding_box(input: &[u8], pos: usize) -> (r: Result<(BoundingBox, usize), ParseError>)
    ensures
        match r {
            Ok((v, next)) => ok_at(spec_parse_bounding_box(input@, pos as int), v, next as int)
                && next == pos + 16 && next <= input@.len(),
            Err(e) => err_at(spec_parse_bounding_box(input@, pos as int), e),
        },
{
    let n = input.len();
    if n < 16 || pos > n - 16 {
        return Err(ParseError { kind: ErrorKind::Truncated, pos });
    }
    let c1 = LatLong { lat: read_i32_le(input, pos), long: read_i32_le(input, pos + 4) };
    let c2 = LatLong { lat: read_i32_le(input, pos + 8), long: read_i32_le(input, pos + 12) };
    Ok((BoundingBox { corner_1: c1, corner_2: c2 }, pos + 16))
}

/// Decodes a line segment: two coordinate pairs.
pub fn parse_line(input: &[u8], pos: usize) -> (r: Result<(Line, usize), ParseError>)
    ensures
        match r {
            Ok((v, next)) => ok_at(spec_parse_line(input@, pos as int), v, next as int)
                && next == pos + 16 && next <= input@.len(),
            Err(e) => err_at(spec_parse_line(input@, pos as int), e),
        },
{
    let n = input.len();
    if n < 16 || pos > n - 16 {
        return Err(ParseError { kind: ErrorKind::Truncated, pos });
    }
    let p1 = LatLong { lat: read_i32_le(input, pos), long: read_i32_le(input, pos + 4) };
    let p2 = LatLong { lat: read_i32_le(input, pos + 8), long: read_i32_le(input, pos + 12) };
    Ok((Line { point_1: p1, point_2: p2 }, pos + 16))
}

/// Decodes one attribute sub-chunk inside a track body. A tag byte that is
/// not one of the four attribute tags fails with `UnknownAttribute` and
/// never ends the process.
pub fn parse_track_data(input: &[u8], pos: usize) -> (r: Result<(TrackData, usize), ParseError>)
    ensures
        match r {
            Ok((v, next)) => ok_at(spec_parse_track_data(input@, pos as int), v@, next as int)
                && pos < next <= input@.len(),
            Err(e) => err_at(spec_parse_track_data(input@, pos as int), e),
        },
{
    let n = input.len();
    if pos >= n {
        return Err(ParseError { kind: ErrorKind::Truncated, pos });
    }
    let tag = *slice_index_get(input, pos);
    if tag != TAG_TRACK_NAME && tag != TAG_START_LINE && tag != TAG_FINISH_LINE && tag
        != TAG_COMBO_FLAG {
        return Err(ParseError { kind: ErrorKind::UnknownAttribute, pos });
    }
    if n - pos < 4 {
        return Err(ParseError { kind: ErrorKind::Truncated, pos });
    }
    let len = *slice_index_get(input, pos + 1) as usize;
    if tag == TAG_TRACK_NAME {
        if len < 4 {
            return Err(ParseError { kind: ErrorKind::LengthMismatch, pos });
        }
        if len > n - pos {
            return Err(ParseError { kind: ErrorKind::Truncated, pos });
        }
        let name_bytes = slice_subrange(input, pos + 4, pos + len);
        let name = lossy_string(name_bytes);
        Ok((TrackData::TrackName(name), pos + len))
    } else if tag == TAG_START_LINE {
        match parse_line(input, pos + 4) {
            Ok((l, next)) => Ok((TrackData::StartLine(l), next)),
            Err(e) => Err(e),
        }
    } else if tag == TAG_FINISH_LINE {
        match parse_line(input, pos + 4) {
            Ok((l, next)) => Ok((TrackData::FinishLine(l), next)),
            Err(e) => Err(e),
        }
    } else {
        if n - pos < 5 {
            return Err(ParseError { kind: ErrorKind::Truncated, pos });
        }
        Ok((TrackData::ComboFlag, pos + 5))
    }
}

/// Decodes one track record: header, bounding box, then attribute
/// sub-chunks filling exactly the declared length, from which the track's
/// name, geometry and combo flag are aggregated. The first occurrence of an
/// attribute wins where it is repeated.
#[verifier::loop_isolation(false)]
#[verifier::rlimit(60)]
pub fn parse_track_chunk(input: &[u8], pos: usize) -> (r: Result<(TrackChunk, usize), ParseError>)
    ensures
        match r {
            Ok((t, next)) => ok_at(spec_parse_track_chunk(input@, pos as int), t@, next as int)
                && pos < next <= input@.len(),
            Err(e) => err_at(spec_parse_track_chunk(input@, pos as int), e),
        },
{
    let n = input.len();
    if pos >= n {
        return Err(ParseError { kind: ErrorKind::Truncated, pos });
    }
    let tag = *slice_index_get(input, pos);
    if tag != TAG_TRACK {
        return Err(ParseError { kind: ErrorKind::UnexpectedTag, pos });
    }
    if n - pos < 4 {
        return Err(ParseError { kind: ErrorKind::Truncated, pos });
    }
    let len = read_u16_le(input, pos + 1) as usize;
    if len < 20 {
        return Err(ParseError { kind: ErrorKind::LengthMismatch, pos });
    }
    if len > n - pos {
        return Err(ParseError { kind: ErrorKind::Truncated, pos });
    }
    let end = pos + len;
    let bbox: BoundingBox;
    match parse_bounding_box(input, pos + 4) {
        Ok((b, _)) => {
            bbox = b;
        },
        Err(e) => {
            proof {
                assert(false);
            }
            return Err(e);
        },
    }
    let mut attrs: Vec<TrackData> = Vec::new();
    let mut cur: usize = pos + 20;
    while cur < end
        invariant
            pos + 20 <= cur <= end <= input@.len(),
            end == pos + len,
            match spec_parse_track_attrs(input@, cur as int, end as int) {
                Ok(rest) => spec_parse_track_attrs(input@, pos + 20, end as int)
                    == Ok::<Seq<SpecTrackData>, (ErrorKind, int)>(view_attrs(attrs@) + rest),
                Err(e) => spec_parse_track_attrs(input@, pos + 20, end as int)
                    == Err::<Seq<SpecTrackData>, (ErrorKind, int)>(e),
            },
        decreases end - cur,
    {
        match parse_track_data(input, cur) {
            Err(e) => {
                proof {
                    assert(spec_parse_track_attrs(input@, cur as int, end as int)
                        == Err::<Seq<SpecTrackData>, (ErrorKind, int)>(e@));
                }
                return Err(e);
            },
            Ok((attr, next)) => {
                if next > end {
                    proof {
                        assert(spec_parse_track_attrs(input@, cur as int, end as int)
                            == Err::<Seq<SpecTrackData>, (ErrorKind, int)>(
                            (ErrorKind::LengthMismatch, cur as int),
                        ));
                    }
                    return Err(ParseError { kind: ErrorKind::LengthMismatch, pos: cur });
                }
                let ghost prev = attrs@;
                attrs.push(attr);
                proof {
                    assert(view_attrs(attrs@) =~= view_attrs(prev) + seq![attr@]);
                    match spec_parse_track_attrs(input@, next as int, end as int) {
                        Ok(rest) => {
                            assert(spec_parse_track_attrs(input@, cur as int, end as int)
                                == Ok::<Seq<SpecTrackData>, (ErrorKind, int)>(seq![attr@] + rest));
                            assert(view_attrs(attrs@) + rest =~= view_attrs(prev) + (seq![attr@]
                                + rest));
                        },
                        Err(e) => {
                            assert(spec_parse_track_attrs(input@, cur as int, end as int)
                                == Err::<Seq<SpecTrackData>, (ErrorKind, int)>(e));
                        },
                    }
                }
                cur = next;
            },
        }
    }
    let ghost av = view_attrs(attrs@);
    proof {
        assert(spec_parse_track_attrs(input@, cur as int, end as int)
            == Ok::<Seq<SpecTrackData>, (ErrorKind, int)>(Seq::empty()));
        assert(av + Seq::<SpecTrackData>::empty() =~= av);
        assert(spec_parse_track_attrs(input@, pos + 20, end as int)
            == Ok::<Seq<SpecTrackData>, (ErrorKind, int)>(av));
    }
    proof {
        assert(av.skip(0) =~= av);
    }
    let mut name: Option<String> = None;
    let mut start: Option<Line> = None;
    let mut finish: Option<Line> = None;
    let mut combo: bool = false;
    let mut i: usize = 0;
    while i < attrs.len()
        invariant
            0 <= i <= attrs.len(),
            av == view_attrs(attrs@),
            match name {
                Some(nm) => spec_first_name(av) == Some(nm@),
                None => spec_first_name(av) == spec_first_name(av.skip(i as int)),
            },
            match start {
                Some(l) => spec_first_start(av) == Some(l),
                None => spec_first_start(av) == spec_first_start(av.skip(i as int)),
            },
            match finish {
                Some(l) => spec_first_finish(av) == Some(l),
                None => spec_first_finish(av) == spec_first_finish(av.skip(i as int)),
            },
            spec_has_combo(av) == (combo || spec_has_combo(av.skip(i as int))),
        decreases attrs.len() - i,
    {
        proof {
            assert(av.skip(i as int)[0] == av[i as int]);
            assert(av.skip(i as int).drop_first() =~= av.skip(i + 1));
        }
        match &attrs[i] {
            TrackData::TrackName(nm) => {
                if name.is_none() {
                    name = Some(nm.clone());
                }
            },
            TrackData::StartLine(l) => {
                if start.is_none() {
                    start = Some(*l);
                }
            },
            TrackData::FinishLine(l) => {
                if finish.is_none() {
                    finish = Some(*l);
                }
            },
            TrackData::ComboFlag => {
                combo = true;
            },
        }
        i = i + 1;
    }
    proof {
        assert(av.skip(attrs@.len() as int) =~= Seq::<SpecTrackData>::empty());
        assert(spec_first_name(Seq::<SpecTrackData>::empty()) is None);
        assert(spec_first_start(Seq::<SpecTrackData>::empty()) is None);
        assert(spec_first_finish(Seq::<SpecTrackData>::empty()) is None);
        assert(!spec_has_combo(Seq::<SpecTrackData>::empty()));
    }
    match name {
        None => Err(ParseError { kind: ErrorKind::MissingField, pos }),
        Some(nm) => match (start, finish) {
            (Some(st), Some(fi)) => Ok(
                (
                    TrackChunk {
                        track_name: nm,
                        bounding_box: bbox,
                        start_finish: StartFinish::PointToPoint { start: st, finish: fi },
                        combo,
                    },
                    end,
                ),
            ),
            (Some(st), None) => Ok(
                (
                    TrackChunk {
                        track_name: nm,
                        bounding_box: bbox,
                        start_finish: StartFinish::Circuit(st),
                        combo,
                    },
                    end,
                ),
            ),
            (None, _) => Err(ParseError { kind: ErrorKind::MissingField, pos }),
        },
    }
}

/// Decodes one region record: header, bounding box, then track records
/// filling exactly the declared length (zero or more tracks).
#[verifier::loop_isolation(false)]
#[verifier::rlimit(60)]
pub fn parse_region_chunk(input: &[u8], pos: usize) -> (r: Result<(Region, usize), ParseError>)
    ensures
        match r {
            Ok((reg, next)) => ok_at(spec_parse_region_chunk(input@, pos as int), reg@, next as int)
                && pos < next <= input@.len(),
            Err(e) => err_at(spec_parse_region_chunk(input@, pos as int), e),
        },
{
    let n = input.len();
    if pos >= n {
        return Err(ParseError { kind: ErrorKind::Truncated, pos });
    }
    let tag = *slice_index_get(input, pos);
    if tag != TAG_REGION {
        return Err(ParseError { kind: ErrorKind::UnexpectedTag, pos });
    }
    if n - pos < 4 {
        return Err(ParseError { kind: ErrorKind::Truncated, pos });
    }
    let len = read_u16_le(input, pos + 1) as usize;
    if len < 20 {
        return Err(ParseError { kind: ErrorKind::LengthMismatch, pos });
    }
    if len > n - pos {
        return Err(ParseError { kind: ErrorKind::Truncated, pos });
    }
    let end = pos + len;
    let bbox: BoundingBox;
    match parse_bounding_box(input, pos + 4) {
        Ok((b, _)) => {
            bbox = b;
        },
        Err(e) => {
            proof {
                assert(false);
            }
            return Err(e);
        },
    }
    let mut tracks: Vec<TrackChunk> = Vec::new();
    let mut cur: usize = pos + 20;
    while cur < end
        invariant
            pos + 20 <= cur <= end <= input@.len(),
            end == pos + len,
            match spec_parse_region_tracks(input@, cur as int, end as int) {
                Ok(rest) => spec_parse_region_tracks(input@, pos + 20, end as int)
                    == Ok::<Seq<SpecTrack>, (ErrorKind, int)>(view_tracks(tracks@) + rest),
                Err(e) => spec_parse_region_tracks(input@, pos + 20, end as int)
                    == Err::<Seq<SpecTrack>, (ErrorKind, int)>(e),
            },
        decreases end - cur,
    {
        match parse_track_chunk(input, cur) {
            Err(e) => {
                proof {
                    assert(spec_parse_region_tracks(input@, cur as int, end as int)
                        == Err::<Seq<SpecTrack>, (ErrorKind, int)>(e@));
                }
                return Err(e);
            },
            Ok((t, next)) => {
                if next > end {
                    proof {
                        assert(spec_parse_region_tracks(input@, cur as int, end as int)
                            == Err::<Seq<SpecTrack>, (ErrorKind, int)>(
                            (ErrorKind::LengthMismatch, cur as int),
                        ));
                    }
                    return Err(ParseError { kind: ErrorKind::LengthMismatch, pos: cur });
                }
                let ghost prev = tracks@;
                let ghost tv = t@;
                tracks.push(t);
                proof {
                    assert(view_tracks(tracks@) =~= view_tracks(prev) + seq![tv]);
                    match spec_parse_region_tracks(input@, next as int, end as int) {
                        Ok(rest) => {
                            assert(spec_parse_region_tracks(input@, cur as int, end as int)
                                == Ok::<Seq<SpecTrack>, (ErrorKind, int)>(seq![tv] + rest));
                            assert(view_tracks(tracks@) + rest =~= view_tracks(prev) + (seq![tv]
                                + rest));
                        },
                        Err(e) => {
                            assert(spec_parse_region_tracks(input@, cur as int, end as int)
                                == Err::<Seq<SpecTrack>, (ErrorKind, int)>(e));
                        },
                    }
                }
                cur = next;
            },
        }
    }
    proof {
        assert(spec_parse_region_tracks(input@, cur as int, end as int)
            == Ok::<Seq<SpecTrack>, (ErrorKind, int)>(Seq::empty()));
        assert(view_tracks(tracks@) + Seq::<SpecTrack>::empty() =~= view_tracks(tracks@));
    }
    Ok((Region { bounding_box: bbox, tracks }, end))
}

/// Decodes the whole database: file header, exactly `REGION_COUNT` region
/// records, then the footer. Every successful decode yields exactly
/// `REGION_COUNT` regions; bytes after the footer are ignored.
#[verifier::loop_isolation(false)]
#[verifier::rlimit(60)]
pub fn parse_track_database(input: &[u8], pos: usize) -> (r: Result<
    (TrackDatabase, usize),
    ParseError,
>)
    ensures
        match r {
            Ok((db, next)) => ok_at(spec_parse_track_database(input@, pos as int), db@, next as int)
                && db.regions@.len() == REGION_COUNT && db@.regions.len() == REGION_COUNT && pos
                < next <= input@.len(),
            Err(e) => err_at(spec_parse_track_database(input@, pos as int), e),
        },
{
    let hdr: FileHeader;
    let p1: usize;
    match parse_file_header(input, pos) {
        Ok((h, p)) => {
            hdr = h;
            p1 = p;
        },
        Err(e) => {
            return Err(e);
        },
    }
    let mut regions: Vec<Region> = Vec::new();
    let mut cur: usize = p1;
    let mut i: usize = 0;
    while i < REGION_COUNT
        invariant
            0 <= i <= REGION_COUNT,
            regions@.len() == i,
            p1 <= cur <= input@.len(),
            match spec_parse_regions(input@, cur as int, (REGION_COUNT - i) as nat) {
                Ok((rest, endp)) => spec_parse_regions(input@, p1 as int, REGION_COUNT as nat)
                    == Ok::<(Seq<SpecRegion>, int), (ErrorKind, int)>(
                    (view_regions(regions@) + rest, endp),
                ),
                Err(e) => spec_parse_regions(input@, p1 as int, REGION_COUNT as nat) == Err::<
                    (Seq<SpecRegion>, int),
                    (ErrorKind, int),
                >(e),
            },
        decreases REGION_COUNT - i,
    {
        match parse_region_chunk(input, cur) {
            Err(e) => {
                proof {
                    assert(spec_parse_regions(input@, cur as int, (REGION_COUNT - i) as nat)
                        == Err::<(Seq<SpecRegion>, int), (ErrorKind, int)>(e@));
                }
                return Err(e);
            },
            Ok((reg, next)) => {
                let ghost prev = regions@;
                let ghost rv = reg@;
                regions.push(reg);
                proof {
                    assert(view_regions(regions@) =~= view_regions(prev) + seq![rv]);
                    match spec_parse_regions(input@, next as int, (REGION_COUNT - i - 1) as nat) {
                        Ok((rest, endp)) => {
                            assert(spec_parse_regions(
                                input@,
                                cur as int,
                                (REGION_COUNT - i) as nat,
                            ) == Ok::<(Seq<SpecRegion>, int), (ErrorKind, int)>(
                                (seq![rv] + rest, endp),
                            ));
                            assert(view_regions(regions@) + rest =~= view_regions(prev) + (seq![rv]
                                + rest));
                        },
                        Err(e) => {
                            assert(spec_parse_regions(
                                input@,
                                cur as int,
                                (REGION_COUNT - i) as nat,
                            ) == Err::<(Seq<SpecRegion>, int), (ErrorKind, int)>(e));
                        },
                    }
                }
                cur = next;
                i = i + 1;
            },
        }
    }
    proof {
        assert(spec_parse_regions(input@, cur as int, 0) == Ok::<
            (Seq<SpecRegion>, int),
            (ErrorKind, int),
        >((Seq::empty(), cur as int)));
        assert(view_regions(regions@) + Seq::<SpecRegion>::empty() =~= view_regions(regions@));
    }
    match parse_footer(input, cur) {
        Err(e) => Err(e),
        Ok((footer, p2)) => Ok((TrackDatabase { hdr, regions, footer }, p2)),
    }
}

/// Decodes the file header: tag, length field (read and ignored), padding,
/// year, month, day, and eight reserved bytes kept verbatim.
pub fn parse_file_header(input: &[u8], pos: usize) -> (r: Result<(FileHeader, usize), ParseError>)
    ensures
        match r {
            Ok((h, next)) => ok_at(spec_parse_file_header(input@, pos as int), h@, next as int)
                && pos < next <= input@.len(),
            Err(e) => err_at(spec_parse_file_header(input@, pos as int), e),
        },
{
    let n = input.len();
    if pos >= n {
        return Err(ParseError { kind: ErrorKind::Truncated, pos });
    }
    let tag = *slice_index_get(input, pos);
    if tag != TAG_FILE_HEADER {
        return Err(ParseError { kind: ErrorKind::UnexpectedTag, pos });
    }
    if n - pos < 16 {
        return Err(ParseError { kind: ErrorKind::Truncated, pos });
    }
    let year = read_u16_le(input, pos + 4);
    let month = *slice_index_get(input, pos + 6);
    let day = *slice_index_get(input, pos + 7);
    let data: [u8; 8] = [
        *slice_index_get(input, pos + 8),
        *slice_index_get(input, pos + 9),
        *slice_index_get(input, pos + 10),
        *slice_index_get(input, pos + 11),
        *slice_index_get(input, pos + 12),
        *slice_index_get(input, pos + 13),
        *slice_index_get(input, pos + 14),
        *slice_index_get(input, pos + 15),
    ];
    proof {
        assert(data@ =~= input@.subrange(pos + 8, pos + 16));
    }
    Ok((FileHeader { year, month, day, data }, pos + 16))
}

/// Decodes the file footer: tag, length field (read and ignored), padding,
/// and four reserved bytes kept verbatim.
pub fn parse_footer(input: &[u8], pos: usize) -> (r: Result<(Footer, usize), ParseError>)
    ensures
        match r {
            Ok((f, next)) => ok_at(spec_parse_footer(input@, pos as int), f@, next as int)
                && pos < next <= input@.len(),
            Err(e) => err_at(spec_parse_footer(input@, pos as int), e),
        },
{
    let n = input.len();
    if pos >= n {
        return Err(ParseError { kind: ErrorKind::Truncated, pos });
    }
    let tag = *slice_index_get(input, pos);
    if tag != TAG_FILE_FOOTER {
        return Err(ParseError { kind: ErrorKind::UnexpectedTag, pos });
    }
    if n - pos < 8 {
        return Err(ParseError { kind: ErrorKind::Truncated, pos });
    }
    let data: [u8; 4] = [
        *slice_index_get(input, pos + 4),
        *slice_index_get(input, pos + 5),
        *slice_index_get(input, pos + 6),
        *slice_index_get(input, pos + 7),
    ];
    proof {
        assert(data@ =~= input@.subrange(pos + 4, pos + 8));
    }
    Ok((Footer { data }, pos + 8))
}

} // verus!
