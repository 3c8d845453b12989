use bdb_parser::models::{ChunkIdentifier, ErrorKind, StartFinish};
use bdb_parser::parsers::{
    parse_bounding_box, parse_chunk_id, parse_file_header, parse_footer, parse_lat_long_raw,
    parse_line, parse_region_chunk, parse_track_chunk, parse_track_data, parse_track_database,
    TrackData,
};

fn le32(v: i32) -> [u8; 4] {
    v.to_le_bytes()
}

fn push_coords(out: &mut Vec<u8>, coords: [i32; 4]) {
    for c in coords {
        out.extend_from_slice(&le32(c));
    }
}

fn attr_name(name: &[u8]) -> Vec<u8> {
    let mut v = vec![0xA4, (4 + name.len()) as u8, 0, 0];
    v.extend_from_slice(name);
    v
}

fn attr_line(tag: u8, coords: [i32; 4]) -> Vec<u8> {
    let mut v = vec![tag, 20, 0, 0];
    push_coords(&mut v, coords);
    v
}

fn attr_combo() -> Vec<u8> {
    vec![0xA7, 5, 0, 0, 1]
}

fn track_bytes(attrs: &[Vec<u8>]) -> Vec<u8> {
    let body: usize = attrs.iter().map(|a| a.len()).sum();
    let len = (20 + body) as u16;
    let mut v = vec![0xA3];
    v.extend_from_slice(&len.to_le_bytes());
    v.push(0);
    push_coords(&mut v, [0, 0, 0, 0]);
    for a in attrs {
        v.extend_from_slice(a);
    }
    v
}

fn region_bytes(tracks: &[Vec<u8>]) -> Vec<u8> {
    let body: usize = tracks.iter().map(|t| t.len()).sum();
    let len = (20 + body) as u16;
    let mut v = vec![0xA2];
    v.extend_from_slice(&len.to_le_bytes());
    v.push(0);
    push_coords(&mut v, [0, 0, 0, 0]);
    for t in tracks {
        v.extend_from_slice(t);
    }
    v
}

fn header_bytes() -> Vec<u8> {
    let mut v = vec![0xA1, 0, 0, 0];
    v.extend_from_slice(&2024u16.to_le_bytes());
    v.push(6);
    v.push(15);
    v.extend_from_slice(&[1, 2, 3, 4, 5, 6, 7, 8]);
    v
}

fn footer_bytes() -> Vec<u8> {
    vec![0xEE, 0, 0, 0, 9, 8, 7, 6]
}

fn db_bytes(region_count: usize) -> Vec<u8> {
    let mut v = header_bytes();
    for _ in 0..region_count {
        v.extend_from_slice(&region_bytes(&[]));
    }
    v.extend_from_slice(&footer_bytes());
    v
}

#[test]
fn chunk_id_decodes_every_valid_byte() {
    assert_eq!(ChunkIdentifier::try_from(0xA1), Ok(ChunkIdentifier::FileHeader));
    assert_eq!(ChunkIdentifier::try_from(0xA2), Ok(ChunkIdentifier::Region));
    assert_eq!(ChunkIdentifier::try_from(0xA3), Ok(ChunkIdentifier::Track));
    assert_eq!(ChunkIdentifier::try_from(0xA4), Ok(ChunkIdentifier::TrackName));
    assert_eq!(ChunkIdentifier::try_from(0xA5), Ok(ChunkIdentifier::StartLine));
    assert_eq!(ChunkIdentifier::try_from(0xA6), Ok(ChunkIdentifier::FinishLine));
    assert_eq!(ChunkIdentifier::try_from(0xA7), Ok(ChunkIdentifier::ComboFlag));
    assert_eq!(ChunkIdentifier::try_from(0xEE), Ok(ChunkIdentifier::FileFooter));
}

#[test]
fn chunk_id_rejects_bytes_outside_the_set() {
    assert_eq!(ChunkIdentifier::try_from(0x00), Err(()));
    assert_eq!(ChunkIdentifier::try_from(0x42), Err(()));
    assert_eq!(ChunkIdentifier::try_from(0xA0), Err(()));
    assert_eq!(ChunkIdentifier::try_from(0xA8), Err(()));
}

#[test]
fn parse_chunk_id_reads_one_byte() {
    let data = vec![0xA3u8, 0xFF];
    let (id, next) = parse_chunk_id(&data, 0).unwrap();
    assert_eq!(id, ChunkIdentifier::Track);
    assert_eq!(next, 1);
    let e = parse_chunk_id(&data, 1).unwrap_err();
    assert_eq!(e.kind, ErrorKind::UnexpectedTag);
    assert_eq!(e.pos, 1);
    let e = parse_chunk_id(&data, 2).unwrap_err();
    assert_eq!(e.kind, ErrorKind::Truncated);
}

#[test]
fn lat_long_zero_decodes_to_zero() {
    let data = vec![0u8; 8];
    let (ll, next) = parse_lat_long_raw(&data, 0).unwrap();
    assert_eq!(ll.lat, 0);
    assert_eq!(ll.long, 0);
    assert_eq!(next, 8);
}

#[test]
fn lat_long_decodes_one_degree_raw_values() {
    // 6,000,000 raw is exactly one degree; the raw value is preserved.
    let mut data = Vec::new();
    data.extend_from_slice(&le32(6_000_000));
    data.extend_from_slice(&le32(-6_000_000));
    let (ll, _) = parse_lat_long_raw(&data, 0).unwrap();
    assert_eq!(ll.lat, 6_000_000);
    assert_eq!(ll.long, -6_000_000);
    assert_eq!(ll.lat as f64 / 6_000_000.0, 1.0);
    assert_eq!(ll.long as f64 / 6_000_000.0, -1.0);
}

#[test]
fn lat_long_extreme_values_round_trip() {
    let mut data = Vec::new();
    data.extend_from_slice(&le32(i32::MIN));
    data.extend_from_slice(&le32(i32::MAX));
    let (ll, _) = parse_lat_long_raw(&data, 0).unwrap();
    assert_eq!(ll.lat, i32::MIN);
    assert_eq!(ll.long, i32::MAX);
}

#[test]
fn lat_long_truncated_input_fails() {
    let data = vec![0u8; 7];
    let e = parse_lat_long_raw(&data, 0).unwrap_err();
    assert_eq!(e.kind, ErrorKind::Truncated);
    assert_eq!(e.pos, 0);
}

#[test]
fn bounding_box_corners_keep_file_order() {
    let mut data = Vec::new();
    push_coords(&mut data, [10, 20, -30, -40]);
    let (bb, next) = parse_bounding_box(&data, 0).unwrap();
    assert_eq!(next, 16);
    assert_eq!(bb.corner_1.lat, 10);
    assert_eq!(bb.corner_1.long, 20);
    assert_eq!(bb.corner_2.lat, -30);
    assert_eq!(bb.corner_2.long, -40);
}

#[test]
fn line_points_keep_file_order() {
    let mut data = Vec::new();
    push_coords(&mut data, [1, 2, 3, 4]);
    let (l, next) = parse_line(&data, 0).unwrap();
    assert_eq!(next, 16);
    assert_eq!(l.point_1.lat, 1);
    assert_eq!(l.point_2.long, 4);
}

#[test]
fn track_data_name_attribute() {
    let data = attr_name(b"Monza");
    let (d, next) = parse_track_data(&data, 0).unwrap();
    assert_eq!(next, data.len());
    match d {
        TrackData::TrackName(n) => assert_eq!(n, "Monza"),
        _ => panic!("expected a name attribute"),
    }
}

#[test]
fn track_data_name_invalid_utf8_is_replaced() {
    let data = attr_name(&[0xFF, b'a']);
    let (d, _) = parse_track_data(&data, 0).unwrap();
    match d {
        TrackData::TrackName(n) => assert_eq!(n, "\u{FFFD}a"),
        _ => panic!("expected a name attribute"),
    }
}

#[test]
fn track_data_line_length_byte_is_ignored() {
    // The declared size of a line attribute is not checked: the payload is
    // always sixteen bytes.
    let mut data = attr_line(0xA5, [1, 2, 3, 4]);
    data[1] = 10;
    let (d, next) = parse_track_data(&data, 0).unwrap();
    assert_eq!(next, 20);
    match d {
        TrackData::StartLine(l) => assert_eq!(l.point_1.lat, 1),
        _ => panic!("expected a start line"),
    }
}

#[test]
fn track_data_unknown_tag_is_a_typed_error() {
    let data = vec![0x42u8, 5, 0, 0, 1];
    let e = parse_track_data(&data, 0).unwrap_err();
    assert_eq!(e.kind, ErrorKind::UnknownAttribute);
    assert_eq!(e.pos, 0);
}

#[test]
fn track_data_region_tag_is_unknown_here() {
    // A byte that is a valid chunk identifier elsewhere is still unknown
    // inside a track body.
    let data = vec![0xA2u8, 5, 0, 0, 1];
    let e = parse_track_data(&data, 0).unwrap_err();
    assert_eq!(e.kind, ErrorKind::UnknownAttribute);
    assert_eq!(e.pos, 0);
}

#[test]
fn track_data_name_shorter_than_header_fails() {
    let data = vec![0xA4u8, 3, 0, 0];
    let e = parse_track_data(&data, 0).unwrap_err();
    assert_eq!(e.kind, ErrorKind::LengthMismatch);
}

#[test]
fn track_with_start_line_only_is_a_circuit() {
    let data = track_bytes(&[attr_name(b"Loop"), attr_line(0xA5, [1, 2, 3, 4])]);
    let (t, next) = parse_track_chunk(&data, 0).unwrap();
    assert_eq!(next, data.len());
    assert_eq!(t.track_name, "Loop");
    assert!(!t.combo);
    match t.start_finish {
        StartFinish::Circuit(l) => {
            assert_eq!(l.point_1.lat, 1);
            assert_eq!(l.point_2.long, 4);
        },
        _ => panic!("expected a circuit"),
    }
}

#[test]
fn track_with_start_and_finish_is_point_to_point() {
    let data = track_bytes(&[
        attr_name(b"Hill"),
        attr_line(0xA5, [1, 2, 3, 4]),
        attr_line(0xA6, [5, 6, 7, 8]),
    ]);
    let (t, _) = parse_track_chunk(&data, 0).unwrap();
    match t.start_finish {
        StartFinish::PointToPoint { start, finish } => {
            assert_eq!(start.point_1.lat, 1);
            assert_eq!(finish.point_1.lat, 5);
        },
        _ => panic!("expected point-to-point"),
    }
}

#[test]
fn track_without_geometry_fails_missing_field() {
    let data = track_bytes(&[attr_name(b"NoLines")]);
    let e = parse_track_chunk(&data, 0).unwrap_err();
    assert_eq!(e.kind, ErrorKind::MissingField);
    assert_eq!(e.pos, 0);
}

#[test]
fn track_with_finish_only_fails_missing_field() {
    // A finish line without a start line is pinned as invalid geometry.
    let data = track_bytes(&[attr_name(b"Odd"), attr_line(0xA6, [1, 2, 3, 4])]);
    let e = parse_track_chunk(&data, 0).unwrap_err();
    assert_eq!(e.kind, ErrorKind::MissingField);
}

#[test]
fn track_without_name_fails_missing_field() {
    let data = track_bytes(&[attr_line(0xA5, [1, 2, 3, 4])]);
    let e = parse_track_chunk(&data, 0).unwrap_err();
    assert_eq!(e.kind, ErrorKind::MissingField);
}

#[test]
fn track_duplicate_name_first_wins() {
    let data = track_bytes(&[
        attr_name(b"First"),
        attr_name(b"Second"),
        attr_line(0xA5, [1, 2, 3, 4]),
    ]);
    let (t, _) = parse_track_chunk(&data, 0).unwrap();
    assert_eq!(t.track_name, "First");
}

#[test]
fn track_combo_flag_presence_sets_combo() {
    let with = track_bytes(&[attr_name(b"C"), attr_line(0xA5, [0, 0, 0, 0]), attr_combo()]);
    let (t, _) = parse_track_chunk(&with, 0).unwrap();
    assert!(t.combo);
    let without = track_bytes(&[attr_name(b"C"), attr_line(0xA5, [0, 0, 0, 0])]);
    let (t, _) = parse_track_chunk(&without, 0).unwrap();
    assert!(!t.combo);
}

#[test]
fn track_combo_flag_value_is_not_interpreted() {
    let mut attrs = attr_combo();
    attrs[4] = 0;
    let data = track_bytes(&[attr_name(b"C"), attr_line(0xA5, [0, 0, 0, 0]), attrs]);
    let (t, _) = parse_track_chunk(&data, 0).unwrap();
    assert!(t.combo);
}

#[test]
fn track_unknown_attribute_propagates() {
    let data = track_bytes(&[attr_name(b"X"), vec![0x42, 5, 0, 0, 1]]);
    let e = parse_track_chunk(&data, 0).unwrap_err();
    assert_eq!(e.kind, ErrorKind::UnknownAttribute);
    assert_eq!(e.pos, 20 + attr_name(b"X").len());
}

#[test]
fn track_declared_length_below_fixed_part_fails() {
    let mut data = track_bytes(&[]);
    data[1] = 19;
    data[2] = 0;
    let e = parse_track_chunk(&data, 0).unwrap_err();
    assert_eq!(e.kind, ErrorKind::LengthMismatch);
}

#[test]
fn track_attribute_crossing_declared_end_fails() {
    // Declared length covers only 4 of the combo attribute's 5 bytes.
    let mut data = track_bytes(&[attr_combo()]);
    data[1] = 24;
    data[2] = 0;
    let e = parse_track_chunk(&data, 0).unwrap_err();
    assert_eq!(e.kind, ErrorKind::LengthMismatch);
    assert_eq!(e.pos, 20);
}

#[test]
fn track_declared_length_beyond_input_fails() {
    let mut data = track_bytes(&[]);
    data[1] = 30;
    data[2] = 0;
    let e = parse_track_chunk(&data, 0).unwrap_err();
    assert_eq!(e.kind, ErrorKind::Truncated);
    assert_eq!(e.pos, 0);
}

#[test]
fn track_padding_bytes_are_not_checked() {
    // Nonzero padding in the track header and in an attribute header is
    // consumed without complaint.
    let mut data = track_bytes(&[attr_name(b"P"), attr_line(0xA5, [0, 0, 0, 0])]);
    data[3] = 0x55;
    let name_pad = 20 + 2;
    data[name_pad] = 0x66;
    let (t, _) = parse_track_chunk(&data, 0).unwrap();
    assert_eq!(t.track_name, "P");
}

#[test]
fn track_wrong_tag_fails_unexpected_tag() {
    let mut data = track_bytes(&[attr_name(b"X"), attr_line(0xA5, [0, 0, 0, 0])]);
    data[0] = 0xA2;
    let e = parse_track_chunk(&data, 0).unwrap_err();
    assert_eq!(e.kind, ErrorKind::UnexpectedTag);
    assert_eq!(e.pos, 0);
}

#[test]
fn region_with_zero_tracks_is_valid() {
    let data = region_bytes(&[]);
    let (r, next) = parse_region_chunk(&data, 0).unwrap();
    assert_eq!(next, data.len());
    assert!(r.tracks.is_empty());
}

#[test]
fn region_collects_tracks_in_file_order() {
    let t1 = track_bytes(&[attr_name(b"One"), attr_line(0xA5, [1, 1, 1, 1])]);
    let t2 = track_bytes(&[attr_name(b"Two"), attr_line(0xA5, [2, 2, 2, 2])]);
    let data = region_bytes(&[t1, t2]);
    let (r, _) = parse_region_chunk(&data, 0).unwrap();
    assert_eq!(r.tracks.len(), 2);
    assert_eq!(r.tracks[0].track_name, "One");
    assert_eq!(r.tracks[1].track_name, "Two");
}

#[test]
fn region_bounding_box_is_decoded() {
    let mut data = region_bytes(&[]);
    let coords: Vec<u8> = le32(7).into_iter().collect();
    data[4..8].copy_from_slice(&coords);
    let (r, _) = parse_region_chunk(&data, 0).unwrap();
    assert_eq!(r.bounding_box.corner_1.lat, 7);
}

#[test]
fn region_track_crossing_declared_end_fails() {
    // The region declares 10 bytes of body but holds a full track record.
    let t = track_bytes(&[attr_name(b"X"), attr_line(0xA5, [0, 0, 0, 0])]);
    let mut data = region_bytes(&[t]);
    data[1] = 30;
    data[2] = 0;
    let e = parse_region_chunk(&data, 0).unwrap_err();
    assert_eq!(e.kind, ErrorKind::LengthMismatch);
    assert_eq!(e.pos, 20);
}

#[test]
fn region_trailing_garbage_in_body_fails() {
    let mut data = region_bytes(&[]);
    data.extend_from_slice(&[0x00, 0x00]);
    let len = 22u16.to_le_bytes();
    data[1] = len[0];
    data[2] = len[1];
    let e = parse_region_chunk(&data, 0).unwrap_err();
    assert_eq!(e.kind, ErrorKind::UnexpectedTag);
    assert_eq!(e.pos, 20);
}

#[test]
fn file_header_fields_decode() {
    let data = header_bytes();
    let (h, next) = parse_file_header(&data, 0).unwrap();
    assert_eq!(next, 16);
    assert_eq!(h.year, 2024);
    assert_eq!(h.month, 6);
    assert_eq!(h.day, 15);
    assert_eq!(h.data, [1, 2, 3, 4, 5, 6, 7, 8]);
}

#[test]
fn file_header_wrong_tag_fails() {
    let mut data = header_bytes();
    data[0] = 0xA2;
    let e = parse_file_header(&data, 0).unwrap_err();
    assert_eq!(e.kind, ErrorKind::UnexpectedTag);
}

#[test]
fn footer_reserved_bytes_kept_verbatim() {
    let data = footer_bytes();
    let (f, next) = parse_footer(&data, 0).unwrap();
    assert_eq!(next, 8);
    assert_eq!(f.data, [9, 8, 7, 6]);
}

#[test]
fn footer_truncated_fails() {
    let data = vec![0xEEu8, 0, 0, 0, 9];
    let e = parse_footer(&data, 0).unwrap_err();
    assert_eq!(e.kind, ErrorKind::Truncated);
}

#[test]
fn database_decodes_sixty_five_empty_regions() {
    let data = db_bytes(65);
    let (db, next) = parse_track_database(&data, 0).unwrap();
    assert_eq!(next, data.len());
    assert_eq!(db.regions.len(), 65);
    assert!(db.regions.iter().all(|r| r.tracks.is_empty()));
    assert_eq!(db.hdr.year, 2024);
    assert_eq!(db.footer.data, [9, 8, 7, 6]);
}

#[test]
fn database_with_sixty_four_regions_fails() {
    let data = db_bytes(64);
    let e = parse_track_database(&data, 0).unwrap_err();
    // The 65th region read lands on the footer tag.
    assert_eq!(e.kind, ErrorKind::UnexpectedTag);
    assert_eq!(e.pos, 16 + 64 * 20);
}

#[test]
fn database_ending_after_regions_fails_truncated() {
    let mut data = db_bytes(65);
    data.truncate(data.len() - 8);
    let e = parse_track_database(&data, 0).unwrap_err();
    assert_eq!(e.kind, ErrorKind::Truncated);
}

#[test]
fn database_trailing_bytes_are_ignored() {
    let mut data = db_bytes(65);
    let expected_end = data.len();
    data.extend_from_slice(&[0xDE, 0xAD]);
    let (db, next) = parse_track_database(&data, 0).unwrap();
    assert_eq!(next, expected_end);
    assert_eq!(db.regions.len(), 65);
}

#[test]
fn database_with_tracks_decodes_them() {
    let t = track_bytes(&[
        attr_name(b"Ring"),
        attr_line(0xA5, [600, -600, 1200, -1200]),
        attr_combo(),
    ]);
    let mut regions: Vec<Vec<u8>> = vec![region_bytes(&[t])];
    for _ in 1..65 {
        regions.push(region_bytes(&[]));
    }
    let mut data = header_bytes();
    for r in &regions {
        data.extend_from_slice(r);
    }
    data.extend_from_slice(&footer_bytes());
    let (db, _) = parse_track_database(&data, 0).unwrap();
    assert_eq!(db.regions[0].tracks.len(), 1);
    let track = &db.regions[0].tracks[0];
    assert_eq!(track.track_name, "Ring");
    assert!(track.combo);
    match &track.start_finish {
        StartFinish::Circuit(l) => assert_eq!(l.point_1.lat, 600),
        _ => panic!("expected a circuit"),
    }
}
