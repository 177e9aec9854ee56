use metadata_fix::error::EmbedError;
use metadata_fix::jpeg::{
    head_at, insert_exif, parse_segments, rewrite_jpeg, Head, Layout, Segment,
};

const SOI: [u8; 2] = [0xFF, 0xD8];
const APP0: [u8; 18] = [
    0xFF, 0xE0, 0x00, 0x10, b'J', b'F', b'I', b'F', 0x00, 0x01, 0x01, 0x00, 0x00, 0x01, 0x00,
    0x01, 0x00, 0x00,
];
const OLD_EXIF: [u8; 12] =
    [0xFF, 0xE1, 0x00, 0x0A, b'E', b'x', b'i', b'f', 0x00, 0x00, 0x4D, 0x4D];
const APP2: [u8; 6] = [0xFF, 0xE2, 0x00, 0x04, 0x49, 0x43];
const DQT: [u8; 6] = [0xFF, 0xDB, 0x00, 0x04, 0xAA, 0xBB];
const SOF: [u8; 7] = [0xFF, 0xC0, 0x00, 0x05, 0x08, 0x00, 0x01];
const SCAN: [u8; 12] =
    [0xFF, 0xDA, 0x00, 0x03, 0x01, 0x12, 0x34, 0xFF, 0x00, 0x56, 0xFF, 0xD9];
const BLOCK: [u8; 8] = [b'E', b'x', b'i', b'f', 0x00, 0x00, 0x2A, 0x2B];
const NEW_EXIF: [u8; 12] =
    [0xFF, 0xE1, 0x00, 0x0A, b'E', b'x', b'i', b'f', 0x00, 0x00, 0x2A, 0x2B];

fn join(parts: &[&[u8]]) -> Vec<u8> {
    let mut all = Vec::new();
    for part in parts {
        all.extend_from_slice(part);
    }
    all
}

fn markers(layout: &Layout) -> Vec<u8> {
    layout.segments.iter().map(|s| s.marker).collect()
}

fn count_exif(data: &[u8]) -> usize {
    parse_segments(data).unwrap().segments.iter().filter(|s| s.marker == 0xE1).count()
}

#[test]
fn exif_segment_has_marker_length_and_block() {
    let mut out = vec![0xFF, 0xD8];
    insert_exif(&mut out, &BLOCK);
    assert_eq!(out, join(&[&SOI, &NEW_EXIF]));
}

#[test]
fn exif_segment_length_is_big_endian() {
    let block = vec![7u8; 300];
    let mut out = Vec::new();
    insert_exif(&mut out, &block);
    assert_eq!(&out[..4], &[0xFF, 0xE1, 0x01, 0x2E]);
    assert_eq!(&out[4..], &block[..]);
    assert_eq!(out.len(), 304);
}

#[test]
fn exif_segment_of_an_empty_block() {
    let mut out = vec![9u8];
    insert_exif(&mut out, &[]);
    assert_eq!(out, vec![9, 0xFF, 0xE1, 0x00, 0x02]);
}

#[test]
fn exif_segment_of_the_longest_block() {
    let block = vec![1u8; 65533];
    let mut out = Vec::new();
    insert_exif(&mut out, &block);
    assert_eq!(&out[..4], &[0xFF, 0xE1, 0xFF, 0xFF]);
    assert_eq!(out.len(), 65537);
}

#[test]
fn segment_is_inserted_behind_app0() {
    let input = join(&[&SOI, &APP0, &DQT, &SOF, &SCAN]);
    let output = rewrite_jpeg(&input, &BLOCK).unwrap();
    assert_eq!(output, join(&[&SOI, &APP0, &NEW_EXIF, &DQT, &SOF, &SCAN]));
}

#[test]
fn segment_is_inserted_before_the_scan_where_there_is_no_app0() {
    let input = join(&[&SOI, &SOF, &SCAN]);
    let output = rewrite_jpeg(&input, &BLOCK).unwrap();
    assert_eq!(output, join(&[&SOI, &SOF, &NEW_EXIF, &SCAN]));
}

#[test]
fn segment_follows_start_of_image_where_the_scan_comes_first() {
    let input = join(&[&SOI, &SCAN]);
    let output = rewrite_jpeg(&input, &BLOCK).unwrap();
    assert_eq!(output, join(&[&SOI, &NEW_EXIF, &SCAN]));
}

#[test]
fn earlier_exif_segment_is_dropped() {
    let input = join(&[&SOI, &APP0, &OLD_EXIF, &DQT, &SOF, &SCAN]);
    let output = rewrite_jpeg(&input, &BLOCK).unwrap();
    assert_eq!(output, join(&[&SOI, &APP0, &NEW_EXIF, &DQT, &SOF, &SCAN]));
    assert_eq!(count_exif(&output), 1);
}

#[test]
fn earlier_exif_segment_in_front_of_app0_is_dropped() {
    let input = join(&[&SOI, &OLD_EXIF, &APP0, &SOF, &SCAN]);
    let output = rewrite_jpeg(&input, &BLOCK).unwrap();
    assert_eq!(output, join(&[&SOI, &APP0, &NEW_EXIF, &SOF, &SCAN]));
}

#[test]
fn every_earlier_exif_segment_is_dropped() {
    let input = join(&[&SOI, &OLD_EXIF, &APP2, &OLD_EXIF, &SOF, &OLD_EXIF, &SCAN]);
    assert_eq!(count_exif(&input), 3);
    let output = rewrite_jpeg(&input, &BLOCK).unwrap();
    assert_eq!(output, join(&[&SOI, &APP2, &SOF, &NEW_EXIF, &SCAN]));
    assert_eq!(count_exif(&output), 1);
}

#[test]
fn stream_without_exif_gains_one() {
    let input = join(&[&SOI, &APP0, &SOF, &SCAN]);
    assert_eq!(count_exif(&input), 0);
    let output = rewrite_jpeg(&input, &BLOCK).unwrap();
    assert_eq!(count_exif(&output), 1);
}

#[test]
fn rewriting_twice_keeps_one_segment() {
    let input = join(&[&SOI, &APP0, &DQT, &SOF, &SCAN]);
    let once = rewrite_jpeg(&input, &[1, 2, 3]).unwrap();
    let twice = rewrite_jpeg(&once, &BLOCK).unwrap();
    assert_eq!(twice, join(&[&SOI, &APP0, &NEW_EXIF, &DQT, &SOF, &SCAN]));
}

#[test]
fn other_application_segments_do_not_move_the_insertion() {
    let input = join(&[&SOI, &APP2, &APP0, &APP2, &SOF, &SCAN]);
    let output = rewrite_jpeg(&input, &BLOCK).unwrap();
    assert_eq!(output, join(&[&SOI, &APP2, &APP0, &NEW_EXIF, &APP2, &SOF, &SCAN]));
}

#[test]
fn second_app0_gets_no_second_segment() {
    let input = join(&[&SOI, &APP0, &APP0, &SCAN]);
    let output = rewrite_jpeg(&input, &BLOCK).unwrap();
    assert_eq!(output, join(&[&SOI, &APP0, &NEW_EXIF, &APP0, &SCAN]));
}

#[test]
fn other_segments_are_kept_in_order() {
    let input = join(&[&SOI, &APP0, &OLD_EXIF, &APP2, &DQT, &SOF, &SCAN]);
    let output = rewrite_jpeg(&input, &BLOCK).unwrap();
    let before = parse_segments(&input).unwrap();
    let after = parse_segments(&output).unwrap();
    let kept_before: Vec<&[u8]> = before
        .segments
        .iter()
        .filter(|s| s.marker != 0xE1)
        .map(|s| &input[s.offset..s.offset + s.size])
        .collect();
    let kept_after: Vec<&[u8]> = after
        .segments
        .iter()
        .filter(|s| s.marker != 0xE1)
        .map(|s| &output[s.offset..s.offset + s.size])
        .collect();
    assert_eq!(kept_before, kept_after);
    assert_eq!(&input[before.scan_offset..], &output[after.scan_offset..]);
    assert_eq!(markers(&after), vec![0xE0, 0xE1, 0xE2, 0xDB, 0xC0]);
}

#[test]
fn well_formed_stream_stays_well_formed() {
    let input = join(&[&SOI, &APP0, &OLD_EXIF, &DQT, &SOF, &SCAN]);
    let output = rewrite_jpeg(&input, &BLOCK).unwrap();
    assert_eq!(&output[..2], &[0xFF, 0xD8]);
    assert_eq!(&output[output.len() - 2..], &[0xFF, 0xD9]);
    let layout = parse_segments(&output).unwrap();
    assert_eq!(&output[layout.scan_offset..layout.scan_offset + 2], &[0xFF, 0xDA]);
}

#[test]
fn scan_data_is_not_interpreted() {
    let scan: Vec<u8> = vec![
        0xFF, 0xDA, 0x00, 0x02, 0xFF, 0xE1, 0x00, 0x04, 0x01, 0x02, 0xFF, 0xE0, 0x00, 0x02, 0xFF,
        0xD9,
    ];
    let input = join(&[&SOI, &SOF, &scan]);
    let output = rewrite_jpeg(&input, &BLOCK).unwrap();
    assert_eq!(output, join(&[&SOI, &SOF, &NEW_EXIF, &scan]));
}

#[test]
fn truncated_payload_is_copied_behind_the_segment() {
    let cut: [u8; 5] = [0xFF, 0xDB, 0x00, 0x10, 0xAA];
    let input = join(&[&SOI, &cut]);
    let output = rewrite_jpeg(&input, &BLOCK).unwrap();
    assert_eq!(output, join(&[&SOI, &NEW_EXIF, &cut]));
}

#[test]
fn truncated_length_field_is_copied_behind_the_segment() {
    let cut: [u8; 3] = [0xFF, 0xC4, 0x00];
    let input = join(&[&SOI, &SOF, &cut]);
    let output = rewrite_jpeg(&input, &BLOCK).unwrap();
    assert_eq!(output, join(&[&SOI, &SOF, &NEW_EXIF, &cut]));
}

#[test]
fn truncated_exif_segment_is_copied_behind_the_new_one() {
    let cut: [u8; 6] = [0xFF, 0xE1, 0x01, 0x00, b'E', b'x'];
    let input = join(&[&SOI, &cut]);
    let output = rewrite_jpeg(&input, &BLOCK).unwrap();
    assert_eq!(output, join(&[&SOI, &NEW_EXIF, &cut]));
}

#[test]
fn truncation_behind_app0_gets_no_second_segment() {
    let cut: [u8; 4] = [0xFF, 0xDB, 0x00, 0x09];
    let input = join(&[&SOI, &APP0, &cut]);
    let output = rewrite_jpeg(&input, &BLOCK).unwrap();
    assert_eq!(output, join(&[&SOI, &APP0, &NEW_EXIF, &cut]));
}

#[test]
fn stray_bytes_are_copied_behind_the_segment() {
    let stray: [u8; 3] = [0x00, 0x11, 0x22];
    let input = join(&[&SOI, &DQT, &stray]);
    let output = rewrite_jpeg(&input, &BLOCK).unwrap();
    assert_eq!(output, join(&[&SOI, &DQT, &NEW_EXIF, &stray]));
}

#[test]
fn last_single_byte_is_copied_behind_the_segment() {
    let input = join(&[&SOI, &DQT, &[0xFF]]);
    let output = rewrite_jpeg(&input, &BLOCK).unwrap();
    assert_eq!(output, join(&[&SOI, &DQT, &NEW_EXIF, &[0xFF]]));
}

#[test]
fn stream_that_ends_behind_a_segment_gets_the_new_one_at_its_end() {
    let input = join(&[&SOI, &DQT]);
    let output = rewrite_jpeg(&input, &BLOCK).unwrap();
    assert_eq!(output, join(&[&SOI, &DQT, &NEW_EXIF]));
}

#[test]
fn bare_start_of_image_gets_the_new_segment() {
    let output = rewrite_jpeg(&SOI, &BLOCK).unwrap();
    assert_eq!(output, join(&[&SOI, &NEW_EXIF]));
}

#[test]
fn fill_bytes_are_kept() {
    let input = join(&[&SOI, &[0xFF, 0xFF], &APP0, &[0xFF], &SOF, &SCAN]);
    let output = rewrite_jpeg(&input, &BLOCK).unwrap();
    assert_eq!(output, join(&[&SOI, &[0xFF, 0xFF], &APP0, &NEW_EXIF, &[0xFF], &SOF, &SCAN]));
}

#[test]
fn marker_without_length_is_copied_byte_by_byte() {
    let input = join(&[&SOI, &[0xFF, 0x01], &SOF, &SCAN]);
    let output = rewrite_jpeg(&input, &BLOCK).unwrap();
    assert_eq!(output, join(&[&SOI, &[0xFF], &NEW_EXIF, &[0x01], &SOF, &SCAN]));
}

#[test]
fn segment_with_a_length_below_two_takes_the_bytes_it_declares() {
    let odd: [u8; 4] = [0xFF, 0xDB, 0x00, 0x00];
    let input = join(&[&SOI, &odd, &SOF]);
    let output = rewrite_jpeg(&input, &BLOCK).unwrap();
    assert_eq!(output, join(&[&SOI, &[0xFF, 0xDB], &NEW_EXIF, &[0x00, 0x00], &SOF]));
}

#[test]
fn short_stream_is_no_jpeg() {
    assert_eq!(rewrite_jpeg(&[], &BLOCK), Err(EmbedError::InvalidInputFormat));
    assert_eq!(rewrite_jpeg(&[0xFF], &BLOCK), Err(EmbedError::InvalidInputFormat));
}

#[test]
fn stream_without_start_of_image_is_no_jpeg() {
    assert_eq!(rewrite_jpeg(&[0xFF, 0xD9, 0xFF, 0xD8], &BLOCK), Err(EmbedError::InvalidInputFormat));
    assert_eq!(rewrite_jpeg(&[0x89, b'P', b'N', b'G'], &BLOCK), Err(EmbedError::InvalidInputFormat));
    assert_eq!(rewrite_jpeg(&[0x00, 0xD8, 0xFF], &BLOCK), Err(EmbedError::InvalidInputFormat));
}

#[test]
fn block_too_long_for_one_segment_is_refused() {
    let input = join(&[&SOI, &APP0, &SCAN]);
    let block = vec![0u8; 65534];
    assert_eq!(rewrite_jpeg(&input, &block), Err(EmbedError::EncodingError));
    assert_eq!(rewrite_jpeg(&[], &block), Err(EmbedError::EncodingError));
    let longest = vec![0u8; 65533];
    let output = rewrite_jpeg(&input, &longest).unwrap();
    assert_eq!(output.len(), input.len() + 65537);
}

#[test]
fn heads_are_told_apart() {
    let data = join(&[&SOI, &APP0, &[0xFF, 0xFF], &SCAN]);
    assert_eq!(head_at(&data, 0), Head::Fill);
    assert_eq!(head_at(&data, 2), Head::Segment { marker: 0xE0, size: 18 });
    assert_eq!(head_at(&data, 3), Head::Stray);
    assert_eq!(head_at(&data, 20), Head::Fill);
    assert_eq!(head_at(&data, 22), Head::ScanStart);
    assert_eq!(head_at(&data, data.len() - 2), Head::Fill);
    assert_eq!(head_at(&data, data.len() - 1), Head::Stray);
    assert_eq!(head_at(&data, data.len()), Head::Stray);
}

#[test]
fn truncated_heads_are_told_apart() {
    assert_eq!(head_at(&[0xFF, 0xDB, 0x00], 0), Head::Truncated);
    assert_eq!(head_at(&[0xFF, 0xDB, 0x00, 0x03], 0), Head::Truncated);
    assert_eq!(head_at(&[0xFF, 0xDB, 0x00, 0x03, 0x01], 0), Head::Segment { marker: 0xDB, size: 5 });
    assert_eq!(head_at(&[0xFF, 0xDB, 0x00, 0x02], 0), Head::Segment { marker: 0xDB, size: 4 });
    assert_eq!(head_at(&[0xFF, 0xFE, 0x00, 0x02], 0), Head::Segment { marker: 0xFE, size: 4 });
    assert_eq!(head_at(&[0xFF, 0xC0, 0x00, 0x02], 0), Head::Segment { marker: 0xC0, size: 4 });
    assert_eq!(head_at(&[0xFF, 0xBF, 0x00, 0x02], 0), Head::Fill);
    assert_eq!(head_at(&[0xFF, 0xD9, 0x00, 0x02], 0), Head::Fill);
    assert_eq!(head_at(&[0xFF, 0xD0, 0x00, 0x02], 0), Head::Segment { marker: 0xD0, size: 4 });
}

#[test]
fn segments_are_listed_with_their_places() {
    let data = join(&[&SOI, &APP0, &[0xFF], &DQT, &SOF, &SCAN]);
    let layout = parse_segments(&data).unwrap();
    assert_eq!(
        layout.segments,
        vec![
            Segment { marker: 0xE0, offset: 2, size: 18 },
            Segment { marker: 0xFF, offset: 20, size: 1 },
            Segment { marker: 0xDB, offset: 21, size: 6 },
            Segment { marker: 0xC0, offset: 27, size: 7 },
        ]
    );
    assert_eq!(layout.scan_offset, 34);
}

#[test]
fn parsing_needs_start_of_image() {
    assert_eq!(parse_segments(&[]), Err(EmbedError::InvalidInputFormat));
    assert_eq!(parse_segments(&[0xFF, 0xE0, 0x00, 0x02]), Err(EmbedError::InvalidInputFormat));
}

#[test]
fn parsing_needs_a_scan() {
    assert_eq!(parse_segments(&SOI), Err(EmbedError::TruncatedSegment));
    assert_eq!(parse_segments(&join(&[&SOI, &APP0])), Err(EmbedError::TruncatedSegment));
    assert_eq!(
        parse_segments(&join(&[&SOI, &[0xFF, 0xDB, 0x00, 0x10, 0xAA]])),
        Err(EmbedError::TruncatedSegment)
    );
    assert_eq!(
        parse_segments(&join(&[&SOI, &APP0, &[0x00], &SCAN])),
        Err(EmbedError::TruncatedSegment)
    );
    assert_eq!(
        parse_segments(&join(&[&SOI, &[0xFF, 0xD9]])),
        Err(EmbedError::TruncatedSegment)
    );
}

#[test]
fn parsing_stops_at_the_scan() {
    let layout = parse_segments(&join(&[&SOI, &SCAN])).unwrap();
    assert_eq!(layout.segments, Vec::new());
    assert_eq!(layout.scan_offset, 2);
}

#[test]
fn records_lie_end_to_end() {
    let data = join(&[&SOI, &[0xFF, 0xFF], &APP0, &OLD_EXIF, &[0xFF], &DQT, &SOF, &SCAN]);
    let layout = parse_segments(&data).unwrap();
    let mut at = 2;
    for segment in &layout.segments {
        assert_eq!(segment.offset, at);
        assert_eq!(data[segment.offset], 0xFF);
        at += segment.size;
    }
    assert_eq!(layout.scan_offset, at);
    assert_eq!(markers(&layout), vec![0xFF, 0xFF, 0xE0, 0xE1, 0xFF, 0xDB, 0xC0]);
}

#[test]
fn rewriting_twice_with_the_same_block_changes_nothing() {
    let inputs: Vec<Vec<u8>> = vec![
        join(&[&SOI, &APP0, &OLD_EXIF, &DQT, &SOF, &SCAN]),
        join(&[&SOI, &OLD_EXIF, &SOF, &SCAN]),
        join(&[&SOI, &[0xFF], &APP2, &SCAN]),
        join(&[&SOI, &SCAN]),
    ];
    for input in inputs {
        let once = rewrite_jpeg(&input, &BLOCK).unwrap();
        let twice = rewrite_jpeg(&once, &BLOCK).unwrap();
        assert_eq!(once, twice);
    }
}
