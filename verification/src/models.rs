//! Data structures for the decoded track database, together with the
//! mathematical views that the decoder's contracts are stated over.
//!
//! Geographic coordinates are kept as the raw signed 32-bit fixed-point
//! values found in the file (minutes scaled by 100,000); dividing such a
//! value by 6,000,000 yields degrees. The library never performs that
//! division itself: it hands the raw values out unchanged.

use vstd::prelude::*;

verus! {

/// Tag byte that opens a file header chunk.
pub const TAG_FILE_HEADER: u8 = 0xA1;
/// Tag byte that opens a region chunk.
pub const TAG_REGION: u8 = 0xA2;
/// Tag byte that opens a track chunk.
pub const TAG_TRACK: u8 = 0xA3;
/// Tag byte that opens a track-name attribute sub-chunk.
pub const TAG_TRACK_NAME: u8 = 0xA4;
/// Tag byte that opens a start-line attribute sub-chunk.
pub const TAG_START_LINE: u8 = 0xA5;
/// Tag byte that opens a finish-line attribute sub-chunk.
pub const TAG_FINISH_LINE: u8 = 0xA6;
/// Tag byte that opens a combo-flag attribute sub-chunk.
pub const TAG_COMBO_FLAG: u8 = 0xA7;
/// Tag byte that opens the file footer chunk.
pub const TAG_FILE_FOOTER: u8 = 0xEE;

/// Number of region records every well-formed file holds; the count is a
/// constant of the format, not read from any length field.
pub const REGION_COUNT: usize = 65;

/// The identifier for a chunk in the file. Any byte outside this closed set
/// is invalid at every decode site.
#[derive(Debug, Clone, Copy, PartialEq, Eq, Structural)]
pub enum ChunkIdentifier {
    FileHeader,
    Region,
    Track,
    TrackName,
    StartLine,
    FinishLine,
    ComboFlag,
    FileFooter,
}

/// The chunk identifier a byte decodes to, if any.
pub open spec fn spec_chunk_id(value: u8) -> Option<ChunkIdentifier> {
    if value == TAG_FILE_HEADER {
        Some(ChunkIdentifier::FileHeader)
    } else if value == TAG_REGION {
        Some(ChunkIdentifier::Region)
    } else if value == TAG_TRACK {
        Some(ChunkIdentifier::Track)
    } else if value == TAG_TRACK_NAME {
        Some(ChunkIdentifier::TrackName)
    } else if value == TAG_START_LINE {
        Some(ChunkIdentifier::StartLine)
    } else if value == TAG_FINISH_LINE {
        Some(ChunkIdentifier::FinishLine)
    } else if value == TAG_COMBO_FLAG {
        Some(ChunkIdentifier::ComboFlag)
    } else if value == TAG_FILE_FOOTER {
        Some(ChunkIdentifier::FileFooter)
    } else {
        None
    }
}

impl ChunkIdentifier {
    /// Decodes a raw byte into a chunk identifier; bytes outside the closed
    /// set are rejected.
    pub fn try_from(value: u8) -> (r: Result<ChunkIdentifier, ()>)
        ensures
            match r {
                Ok(id) => spec_chunk_id(value) == Some(id),
                Err(()) => spec_chunk_id(value) is None,
            },
    {
        if value == TAG_FILE_HEADER {
            Ok(ChunkIdentifier::FileHeader)
        } else if value == TAG_REGION {
            Ok(ChunkIdentifier::Region)
        } else if value == TAG_TRACK {
            Ok(ChunkIdentifier::Track)
        } else if value == TAG_TRACK_NAME {
            Ok(ChunkIdentifier::TrackName)
        } else if value == TAG_START_LINE {
            Ok(ChunkIdentifier::StartLine)
        } else if value == TAG_FINISH_LINE {
            Ok(ChunkIdentifier::FinishLine)
        } else if value == TAG_COMBO_FLAG {
            Ok(ChunkIdentifier::ComboFlag)
        } else if value == TAG_FILE_FOOTER {
            Ok(ChunkIdentifier::FileFooter)
        } else {
            Err(())
        }
    }
}

/// The latitude and longitude of a point, as raw fixed-point values.
#[derive(Debug, Clone, Copy, PartialEq, Eq, Structural)]
pub struct LatLong {
    pub lat: i32,
    pub long: i32,
}

/// The bounding box of a region or track. The corners are the two points as
/// they stand in the file, in file order; no ordering between them is
/// enforced.
#[derive(Debug, Clone, Copy, PartialEq, Eq, Structural)]
pub struct BoundingBox {
    pub corner_1: LatLong,
    pub corner_2: LatLong,
}

/// A line segment between two points.
#[derive(Debug, Clone, Copy, PartialEq, Eq, Structural)]
pub struct Line {
    pub point_1: LatLong,
    pub point_2: LatLong,
}

/// The start and finish geometry of a track.
#[derive(Debug, Clone, Copy, PartialEq, Eq, Structural)]
pub enum StartFinish {
    /// A circuit track: one line serves as both start and finish.
    Circuit(Line),
    /// A point-to-point track with distinct start and finish lines.
    PointToPoint { start: Line, finish: Line },
}

/// All the data for a single track.
#[derive(Debug)]
pub struct TrackChunk {
    /// The name of the track.
    pub track_name: String,
    /// The bounding box of the track.
    pub bounding_box: BoundingBox,
    /// The start and finish geometry of the track.
    pub start_finish: StartFinish,
    /// Whether a combo-flag attribute was present on the track.
    pub combo: bool,
}

/// The header of the file.
#[derive(Debug)]
pub struct FileHeader {
    pub year: u16,
    pub month: u8,
    pub day: u8,
    /// Reserved bytes, preserved verbatim and not interpreted.
    pub data: [u8; 8],
}

/// A geographic region: a bounding box and the tracks grouped under it, in
/// file order.
#[derive(Debug)]
pub struct Region {
    /// The bounding box of the region.
    pub bounding_box: BoundingBox,
    /// The tracks in the region.
    pub tracks: Vec<TrackChunk>,
}

/// The footer of the file.
#[derive(Debug)]
pub struct Footer {
    /// Reserved bytes, preserved verbatim and not interpreted.
    pub data: [u8; 4],
}

/// The entire database of tracks as stored in the file.
#[derive(Debug)]
pub struct TrackDatabase {
    /// The header of the file.
    pub hdr: FileHeader,
    /// The regions in the file, in file order.
    pub regions: Vec<Region>,
    /// The footer of the file.
    pub footer: Footer,
}

/// The kind of a decode failure.
#[derive(Debug, Clone, Copy, PartialEq, Eq, Structural)]
pub enum ErrorKind {
    /// A byte did not decode to the chunk identifier expected at this site.
    UnexpectedTag,
    /// Fewer bytes remain than the read requires.
    Truncated,
    /// A declared chunk length does not account for the bytes its
    /// sub-structures consume.
    LengthMismatch,
    /// A required track field (name or geometry) was absent.
    MissingField,
    /// An attribute tag inside a track body is not one of the known
    /// attribute tags.
    UnknownAttribute,
}

/// A decode failure: its kind and the byte offset at which it occurred.
#[derive(Debug, Clone, Copy, PartialEq, Eq, Structural)]
pub struct ParseError {
    pub kind: ErrorKind,
    pub pos: usize,
}

impl View for ParseError {
    type V = (ErrorKind, int);

    open spec fn view(&self) -> (ErrorKind, int) {
        (self.kind, self.pos as int)
    }
}

/// Mathematical model of a decoded track.
pub ghost struct SpecTrack {
    pub name: Seq<char>,
    pub bounding_box: BoundingBox,
    pub start_finish: StartFinish,
    pub combo: bool,
}

/// Mathematical model of a decoded region.
pub ghost struct SpecRegion {
    pub bounding_box: BoundingBox,
    pub tracks: Seq<SpecTrack>,
}

/// Mathematical model of the file header.
pub ghost struct SpecFileHeader {
    pub year: u16,
    pub month: u8,
    pub day: u8,
    pub data: Seq<u8>,
}

/// Mathematical model of the footer.
pub ghost struct SpecFooter {
    pub data: Seq<u8>,
}

/// Mathematical model of the whole database.
pub ghost struct SpecDatabase {
    pub hdr: SpecFileHeader,
    pub regions: Seq<SpecRegion>,
    pub footer: SpecFooter,
}

/// The views of a sequence of decoded tracks.
pub open spec fn view_tracks(v: Seq<TrackChunk>) -> Seq<SpecTrack> {
    v.map(|i: int, t: TrackChunk| t@)
}

/// The views of a sequence of decoded regions.
pub open spec fn view_regions(v: Seq<Region>) -> Seq<SpecRegion> {
    v.map(|i: int, r: Region| r@)
}

impl View for TrackChunk {
    type V = SpecTrack;

    open spec fn view(&self) -> SpecTrack {
        SpecTrack {
            name: self.track_name@,
            bounding_box: self.bounding_box,
            start_finish: self.start_finish,
            combo: self.combo,
        }
    }
}

impl View for Region {
    type V = SpecRegion;

    open spec fn view(&self) -> SpecRegion {
        SpecRegion { bounding_box: self.bounding_box, tracks: view_tracks(self.tracks@) }
    }
}

impl View for FileHeader {
    type V = SpecFileHeader;

    open spec fn view(&self) -> SpecFileHeader {
        SpecFileHeader { year: self.year, month: self.month, day: self.day, data: self.data@ }
    }
}

impl View for Footer {
    type V = SpecFooter;

    open spec fn view(&self) -> SpecFooter {
        SpecFooter { data: self.data@ }
    }
}

impl View for TrackDatabase {
    type V = SpecDatabase;

    open spec fn view(&self) -> SpecDatabase {
        SpecDatabase { hdr: self.hdr@, regions: view_regions(self.regions@), footer: self.footer@ }
    }
}

} // verus!
