//! General properties of the decoder, stated over the specification
//! functions in `grammar` and proved once for all inputs.

use vstd::prelude::*;

use crate::grammar::{
    le_u16_at, spec_build_track, spec_first_finish, spec_first_name, spec_first_start,
    spec_has_combo, spec_parse_region_chunk, spec_parse_regions, spec_parse_track_chunk,
    spec_parse_track_data, spec_parse_track_database, SpecTrackData,
};
use crate::models::{
    BoundingBox, ErrorKind, SpecDatabase, SpecRegion, SpecTrack, StartFinish, REGION_COUNT,
    TAG_COMBO_FLAG, TAG_FINISH_LINE, TAG_START_LINE, TAG_TRACK_NAME,
};

verus! {

/// A run of `n` region records that decodes successfully yields exactly `n`
/// regions.
pub proof fn lemma_regions_len(s: Seq<u8>, pos: int, n: nat, regions: Seq<SpecRegion>, next: int)
    requires
        spec_parse_regions(s, pos, n) == Ok::<(Seq<SpecRegion>, int), (ErrorKind, int)>(
            (regions, next),
        ),
    ensures
        regions.len() == n,
    decreases n,
{
    if n == 0 {
    } else {
        match spec_parse_region_chunk(s, pos) {
            Ok((r, p)) => {
                match spec_parse_regions(s, p, (n - 1) as nat) {
                    Ok((rest, e)) => {
                        lemma_regions_len(s, p, (n - 1) as nat, rest, e);
                    },
                    Err(_) => {
                        assert(false);
                    },
                }
            },
            Err(_) => {
                assert(false);
            },
        }
    }
}

/// Every input that decodes to a database yields exactly `REGION_COUNT`
/// regions; fewer well-formed regions is a decode failure.
pub proof fn lemma_database_region_count(s: Seq<u8>, pos: int, db: SpecDatabase, next: int)
    requires
        spec_parse_track_database(s, pos) == Ok::<(SpecDatabase, int), (ErrorKind, int)>(
            (db, next),
        ),
    ensures
        db.regions.len() == REGION_COUNT,
{
    match spec_parse_track_database(s, pos) {
        Ok((d, _)) => {
            match crate::grammar::spec_parse_file_header(s, pos) {
                Ok((_, p1)) => {
                    match spec_parse_regions(s, p1, REGION_COUNT as nat) {
                        Ok((regions, p2)) => {
                            lemma_regions_len(s, p1, REGION_COUNT as nat, regions, p2);
                        },
                        Err(_) => {
                            assert(false);
                        },
                    }
                },
                Err(_) => {
                    assert(false);
                },
            }
        },
        Err(_) => {
            assert(false);
        },
    }
}

/// A track record that decodes successfully consumes exactly its declared
/// length: the bytes consumed by its sub-structures equal the declared
/// length less the 20-byte fixed part, and the declared length covers at
/// least that fixed part.
pub proof fn lemma_track_record_length(s: Seq<u8>, pos: int, t: SpecTrack, next: int)
    requires
        spec_parse_track_chunk(s, pos) == Ok::<(SpecTrack, int), (ErrorKind, int)>((t, next)),
    ensures
        pos + 4 <= s.len(),
        le_u16_at(s, pos + 1) >= 20,
        next == pos + le_u16_at(s, pos + 1),
        next <= s.len(),
{
}

/// A region record that decodes successfully consumes exactly its declared
/// length: the bytes consumed by its track records equal the declared
/// length less the 20-byte fixed part.
pub proof fn lemma_region_record_length(s: Seq<u8>, pos: int, reg: SpecRegion, next: int)
    requires
        spec_parse_region_chunk(s, pos) == Ok::<(SpecRegion, int), (ErrorKind, int)>((reg, next)),
    ensures
        pos + 4 <= s.len(),
        le_u16_at(s, pos + 1) >= 20,
        next == pos + le_u16_at(s, pos + 1),
        next <= s.len(),
{
}

/// A track body with a name and a start line but no finish line aggregates
/// to a circuit over that start line.
pub proof fn lemma_layout_circuit(bbox: BoundingBox, attrs: Seq<SpecTrackData>)
    requires
        spec_first_name(attrs) is Some,
        spec_first_start(attrs) is Some,
        spec_first_finish(attrs) is None,
    ensures
        ({
            &&& spec_build_track(bbox, attrs) matches Ok(t)
            &&& t.name == spec_first_name(attrs).unwrap()
            &&& t.bounding_box == bbox
            &&& t.start_finish == StartFinish::Circuit(spec_first_start(attrs).unwrap())
            &&& t.combo == spec_has_combo(attrs)
        }),
{
}

/// A track body with a name, a start line and a finish line aggregates to a
/// point-to-point course over those two lines.
pub proof fn lemma_layout_point_to_point(bbox: BoundingBox, attrs: Seq<SpecTrackData>)
    requires
        spec_first_name(attrs) is Some,
        spec_first_start(attrs) is Some,
        spec_first_finish(attrs) is Some,
    ensures
        ({
            &&& spec_build_track(bbox, attrs) matches Ok(t)
            &&& t.name == spec_first_name(attrs).unwrap()
            &&& t.bounding_box == bbox
            &&& t.start_finish == StartFinish::PointToPoint {
                start: spec_first_start(attrs).unwrap(),
                finish: spec_first_finish(attrs).unwrap(),
            }
            &&& t.combo == spec_has_combo(attrs)
        }),
{
}

/// A track body without a start line has no valid geometry and fails with
/// `MissingField`, whatever else it holds.
pub proof fn lemma_layout_missing_geometry(bbox: BoundingBox, attrs: Seq<SpecTrackData>)
    requires
        spec_first_start(attrs) is None,
    ensures
        spec_build_track(bbox, attrs) == Err::<SpecTrack, ErrorKind>(ErrorKind::MissingField),
{
}

/// A track body without a name fails with `MissingField`, whatever geometry
/// it holds.
pub proof fn lemma_missing_name(bbox: BoundingBox, attrs: Seq<SpecTrackData>)
    requires
        spec_first_name(attrs) is None,
    ensures
        spec_build_track(bbox, attrs) == Err::<SpecTrack, ErrorKind>(ErrorKind::MissingField),
{
}

/// Where the name attribute appears more than once, the first occurrence
/// wins, whatever follows it.
pub proof fn lemma_first_name_first_wins(name: Seq<char>, rest: Seq<SpecTrackData>)
    ensures
        spec_first_name(seq![SpecTrackData::TrackName(name)] + rest) == Some(name),
{
    let attrs = seq![SpecTrackData::TrackName(name)] + rest;
    assert(attrs[0] == SpecTrackData::TrackName(name));
}

/// An attribute tag inside a track body that is not one of the four known
/// attribute tags fails with `UnknownAttribute` at the sub-chunk start; the
/// decoder never ends the process over it.
pub proof fn lemma_unknown_attribute(s: Seq<u8>, pos: int)
    requires
        0 <= pos < s.len(),
        s[pos] != TAG_TRACK_NAME,
        s[pos] != TAG_START_LINE,
        s[pos] != TAG_FINISH_LINE,
        s[pos] != TAG_COMBO_FLAG,
    ensures
        spec_parse_track_data(s, pos) == Err::<(SpecTrackData, int), (ErrorKind, int)>(
            (ErrorKind::UnknownAttribute, pos),
        ),
{
}

} // verus!
