use metadata_fix::error::EmbedError;
use metadata_fix::png_exif::{accept_encoded, inject_exif_chunk};
use metadata_fix::png_stream::{
    chunk_len_at, frame_fits, has_exif_layout, is_valid_combination, kind_is, read_be32,
    read_header, same_bytes, PngHeader,
};

const SIGNATURE: [u8; 8] = [137, 80, 78, 71, 13, 10, 26, 10];
const BLOCK: [u8; 10] = [b'E', b'x', b'i', b'f', 0, 0, b'M', b'M', 0, 42];

fn encode(width: u32, height: u32, color: png::ColorType, depth: png::BitDepth, pixels: &[u8]) -> Vec<u8> {
    let mut out = Vec::new();
    {
        let mut encoder = png::Encoder::new(&mut out, width, height);
        encoder.set_color(color);
        encoder.set_depth(depth);
        let mut writer = encoder.write_header().unwrap();
        writer.write_image_data(pixels).unwrap();
        writer.finish().unwrap();
    }
    out
}

fn decode(data: &[u8]) -> (u32, u32, png::ColorType, png::BitDepth, Vec<u8>) {
    let mut reader = png::Decoder::new(data).read_info().unwrap();
    let mut pixels = vec![0; reader.output_buffer_size()];
    reader.next_frame(&mut pixels).unwrap();
    let info = reader.info();
    (info.width, info.height, info.color_type, info.bit_depth, pixels)
}

fn chunks(data: &[u8]) -> Vec<(Vec<u8>, Vec<u8>)> {
    let mut list = Vec::new();
    let mut pos = 8;
    while let Some(len) = chunk_len_at(data, pos) {
        list.push((data[pos + 4..pos + 8].to_vec(), data[pos + 8..pos + 8 + len].to_vec()));
        pos += 12 + len;
    }
    assert_eq!(pos, data.len());
    list
}

fn kinds(data: &[u8]) -> Vec<Vec<u8>> {
    chunks(data).into_iter().map(|(kind, _)| kind).collect()
}

fn chunk(kind: &[u8; 4], data: &[u8]) -> Vec<u8> {
    let mut out = Vec::new();
    out.extend_from_slice(&(data.len() as u32).to_be_bytes());
    out.extend_from_slice(kind);
    out.extend_from_slice(data);
    out.extend_from_slice(&[0, 0, 0, 0]);
    out
}

fn header_data(width: u32, height: u32, depth: u8, color: u8) -> Vec<u8> {
    let mut data = Vec::new();
    data.extend_from_slice(&width.to_be_bytes());
    data.extend_from_slice(&height.to_be_bytes());
    data.extend_from_slice(&[depth, color, 0, 0, 0]);
    data
}

fn stream(parts: &[Vec<u8>]) -> Vec<u8> {
    let mut out = SIGNATURE.to_vec();
    for part in parts {
        out.extend_from_slice(part);
    }
    out
}

fn rgb_image() -> Vec<u8> {
    let pixels: Vec<u8> = (0u8..2 * 3 * 3).collect();
    encode(2, 3, png::ColorType::Rgb, png::BitDepth::Eight, &pixels)
}

#[test]
fn truncated_header_is_no_png() {
    let data: [u8; 16] = [137, 80, 78, 71, 13, 10, 26, 10, 0, 0, 0, 13, b'I', b'H', b'D', b'R'];
    assert_eq!(inject_exif_chunk(&data, &BLOCK), Err(EmbedError::InvalidInputFormat));
    assert_eq!(read_header(&data), None);
}

#[test]
fn empty_stream_is_no_png() {
    assert_eq!(inject_exif_chunk(&[], &BLOCK), Err(EmbedError::InvalidInputFormat));
    assert_eq!(inject_exif_chunk(&SIGNATURE, &BLOCK), Err(EmbedError::InvalidInputFormat));
}

#[test]
fn wrong_signature_is_no_png() {
    let mut data = rgb_image();
    data[0] = 0x88;
    assert_eq!(inject_exif_chunk(&data, &BLOCK), Err(EmbedError::InvalidInputFormat));
    let mut data = rgb_image();
    data[7] = 0x0B;
    assert_eq!(inject_exif_chunk(&data, &BLOCK), Err(EmbedError::InvalidInputFormat));
    assert_eq!(
        inject_exif_chunk(&[0xFF, 0xD8, 0xFF, 0xE0, 0, 16], &BLOCK),
        Err(EmbedError::InvalidInputFormat)
    );
}

#[test]
fn first_chunk_of_another_type_is_no_png() {
    let mut data = rgb_image();
    data[12] = b'J';
    assert_eq!(inject_exif_chunk(&data, &BLOCK), Err(EmbedError::InvalidInputFormat));
}

#[test]
fn header_of_another_length_is_no_png() {
    let data = stream(&[chunk(b"IHDR", &[0, 0, 0, 1, 0, 0, 0, 1, 8, 0, 0, 0]), chunk(b"IEND", &[])]);
    assert_eq!(read_header(&data), None);
    assert_eq!(inject_exif_chunk(&data, &BLOCK), Err(EmbedError::InvalidInputFormat));
}

#[test]
fn header_without_pixels_is_no_png() {
    let data = stream(&[chunk(b"IHDR", &header_data(0, 4, 8, 2))]);
    assert_eq!(inject_exif_chunk(&data, &BLOCK), Err(EmbedError::InvalidInputFormat));
    let data = stream(&[chunk(b"IHDR", &header_data(4, 0, 8, 2))]);
    assert_eq!(inject_exif_chunk(&data, &BLOCK), Err(EmbedError::InvalidInputFormat));
}

#[test]
fn header_with_a_bad_colour_and_depth_is_no_png() {
    let data = stream(&[chunk(b"IHDR", &header_data(4, 4, 4, 2))]);
    assert_eq!(inject_exif_chunk(&data, &BLOCK), Err(EmbedError::InvalidInputFormat));
    let data = stream(&[chunk(b"IHDR", &header_data(4, 4, 8, 5))]);
    assert_eq!(inject_exif_chunk(&data, &BLOCK), Err(EmbedError::InvalidInputFormat));
    let data = stream(&[chunk(b"IHDR", &header_data(4, 4, 16, 3))]);
    assert_eq!(inject_exif_chunk(&data, &BLOCK), Err(EmbedError::InvalidInputFormat));
}

#[test]
fn header_with_unknown_methods_is_no_png() {
    for at in 10..13 {
        let mut fields = header_data(4, 4, 8, 2);
        fields[at] = 2;
        let data = stream(&[chunk(b"IHDR", &fields)]);
        assert_eq!(read_header(&data), None);
    }
    let mut fields = header_data(4, 4, 8, 2);
    fields[12] = 1;
    let data = stream(&[chunk(b"IHDR", &fields)]);
    assert_eq!(
        read_header(&data),
        Some(PngHeader { width: 4, height: 4, bit_depth: 8, color_type: 2 })
    );
}

#[test]
fn header_is_read_from_an_encoded_image() {
    let data = rgb_image();
    assert_eq!(
        read_header(&data),
        Some(PngHeader { width: 2, height: 3, bit_depth: 8, color_type: 2 })
    );
    let data = encode(300, 1, png::ColorType::GrayscaleAlpha, png::BitDepth::Sixteen, &[0; 1200]);
    assert_eq!(
        read_header(&data),
        Some(PngHeader { width: 300, height: 1, bit_depth: 16, color_type: 4 })
    );
}

#[test]
fn stream_with_header_but_no_image_data_fails_in_the_codec() {
    let data = stream(&[chunk(b"IHDR", &header_data(4, 4, 8, 2)), chunk(b"IEND", &[])]);
    assert_eq!(inject_exif_chunk(&data, &BLOCK), Err(EmbedError::EncodingError));
}

#[test]
fn damaged_image_data_fails_in_the_codec() {
    let mut data = rgb_image();
    let at = data.len() - 20;
    data[at] ^= 0xFF;
    assert_eq!(inject_exif_chunk(&data, &BLOCK), Err(EmbedError::EncodingError));
}

#[test]
fn cut_off_image_fails_in_the_codec() {
    let data = rgb_image();
    assert_eq!(inject_exif_chunk(&data[..40], &BLOCK), Err(EmbedError::EncodingError));
}

#[test]
fn image_too_large_to_hold_is_refused() {
    let data = stream(&[chunk(b"IHDR", &header_data(u32::MAX, u32::MAX, 16, 6)), chunk(b"IEND", &[])]);
    assert_eq!(inject_exif_chunk(&data, &BLOCK), Err(EmbedError::EncodingError));
}

#[test]
fn indexed_image_is_refused_without_its_palette() {
    let mut out = Vec::new();
    {
        let mut encoder = png::Encoder::new(&mut out, 2, 2);
        encoder.set_color(png::ColorType::Indexed);
        encoder.set_depth(png::BitDepth::Eight);
        encoder.set_palette(vec![0, 0, 0, 255, 255, 255]);
        let mut writer = encoder.write_header().unwrap();
        writer.write_image_data(&[0, 1, 1, 0]).unwrap();
        writer.finish().unwrap();
    }
    assert_eq!(inject_exif_chunk(&out, &BLOCK), Err(EmbedError::EncodingError));
}

#[test]
fn chunk_stands_between_header_and_image_data() {
    let output = inject_exif_chunk(&rgb_image(), &BLOCK).unwrap();
    assert_eq!(&output[..8], &SIGNATURE);
    let list = chunks(&output);
    assert_eq!(list[0].0, b"IHDR".to_vec());
    assert_eq!(list[1].0, b"eXIf".to_vec());
    assert_eq!(list[1].1, BLOCK.to_vec());
    assert_eq!(list[2].0, b"IDAT".to_vec());
    assert_eq!(list[list.len() - 1].0, b"IEND".to_vec());
    assert_eq!(list[list.len() - 1].1, Vec::<u8>::new());
    assert!(has_exif_layout(&output, &BLOCK));
}

#[test]
fn image_is_preserved() {
    let input = rgb_image();
    let output = inject_exif_chunk(&input, &BLOCK).unwrap();
    let before = decode(&input);
    let after = decode(&output);
    assert_eq!(before, after);
    assert_eq!(after.0, 2);
    assert_eq!(after.1, 3);
    assert_eq!(after.2, png::ColorType::Rgb);
    assert_eq!(after.3, png::BitDepth::Eight);
    assert_eq!(after.4, (0u8..18).collect::<Vec<u8>>());
    assert_eq!(read_header(&input), read_header(&output));
}

#[test]
fn images_of_other_kinds_are_preserved() {
    let cases: Vec<Vec<u8>> = vec![
        encode(9, 2, png::ColorType::Grayscale, png::BitDepth::One, &[0xAA, 0x80, 0x55, 0x00]),
        encode(3, 2, png::ColorType::Grayscale, png::BitDepth::Four, &[0x12, 0x30, 0x45, 0x60]),
        encode(2, 2, png::ColorType::Rgba, png::BitDepth::Sixteen, &(0u8..32).collect::<Vec<u8>>()),
        encode(5, 1, png::ColorType::GrayscaleAlpha, png::BitDepth::Eight, &(0u8..10).collect::<Vec<u8>>()),
        encode(1, 1, png::ColorType::Rgb, png::BitDepth::Eight, &[255, 0, 128]),
    ];
    for input in cases {
        let output = inject_exif_chunk(&input, &BLOCK).unwrap();
        assert_eq!(decode(&input), decode(&output));
        assert_eq!(read_header(&input), read_header(&output));
        assert!(has_exif_layout(&output, &BLOCK));
    }
}

#[test]
fn other_chunks_of_the_input_are_not_carried_over() {
    let mut out = Vec::new();
    {
        let mut encoder = png::Encoder::new(&mut out, 1, 1);
        encoder.set_color(png::ColorType::Rgb);
        encoder.set_depth(png::BitDepth::Eight);
        let mut writer = encoder.write_header().unwrap();
        writer.write_chunk(png::chunk::ChunkType(*b"eXIf"), &[1, 2, 3]).unwrap();
        writer.write_image_data(&[1, 2, 3]).unwrap();
        writer.finish().unwrap();
    }
    let output = inject_exif_chunk(&out, &BLOCK).unwrap();
    let list = chunks(&output);
    let exif: Vec<&(Vec<u8>, Vec<u8>)> = list.iter().filter(|c| c.0 == b"eXIf".to_vec()).collect();
    assert_eq!(exif.len(), 1);
    assert_eq!(exif[0].1, BLOCK.to_vec());
}

#[test]
fn injecting_is_the_same_every_time() {
    let first = inject_exif_chunk(&rgb_image(), &BLOCK).unwrap();
    let second = inject_exif_chunk(&rgb_image(), &BLOCK).unwrap();
    assert_eq!(first, second);
}

#[test]
fn empty_block_gets_an_empty_chunk() {
    let output = inject_exif_chunk(&rgb_image(), &[]).unwrap();
    assert_eq!(chunks(&output)[1], (b"eXIf".to_vec(), Vec::new()));
    assert_eq!(kinds(&output), vec![b"IHDR".to_vec(), b"eXIf".to_vec(), b"IDAT".to_vec(), b"IEND".to_vec()]);
}

#[test]
fn layout_is_told_from_other_layouts() {
    let head = chunk(b"IHDR", &header_data(1, 1, 8, 0));
    let exif = chunk(b"eXIf", &BLOCK);
    let idat = chunk(b"IDAT", &[1, 2]);
    let iend = chunk(b"IEND", &[]);
    let text = chunk(b"tEXt", &[b'a']);
    let good = stream(&[head.clone(), exif.clone(), idat.clone(), iend.clone()]);
    assert!(has_exif_layout(&good, &BLOCK));
    let two = stream(&[head.clone(), exif.clone(), idat.clone(), idat.clone(), iend.clone()]);
    assert!(has_exif_layout(&two, &BLOCK));
    assert!(!has_exif_layout(&good, &[1, 2, 3]));
    let plain = stream(&[head.clone(), idat.clone(), iend.clone()]);
    assert!(!has_exif_layout(&plain, &BLOCK));
    let late = stream(&[head.clone(), idat.clone(), exif.clone(), iend.clone()]);
    assert!(!has_exif_layout(&late, &BLOCK));
    let no_data = stream(&[head.clone(), exif.clone(), iend.clone()]);
    assert!(!has_exif_layout(&no_data, &BLOCK));
    let no_end = stream(&[head.clone(), exif.clone(), idat.clone()]);
    assert!(!has_exif_layout(&no_end, &BLOCK));
    let extra = stream(&[head.clone(), exif.clone(), text.clone(), idat.clone(), iend.clone()]);
    assert!(!has_exif_layout(&extra, &BLOCK));
    let between = stream(&[head.clone(), exif.clone(), idat.clone(), text.clone(), iend.clone()]);
    assert!(!has_exif_layout(&between, &BLOCK));
    let mut trailing = good.clone();
    trailing.push(0);
    assert!(!has_exif_layout(&trailing, &BLOCK));
    let twice = stream(&[head.clone(), exif.clone(), exif.clone(), idat.clone(), iend.clone()]);
    assert!(!has_exif_layout(&twice, &BLOCK));
    assert!(!has_exif_layout(&good[8..], &BLOCK));
    assert!(!has_exif_layout(&[], &BLOCK));
}

#[test]
fn encoded_stream_is_accepted_with_the_right_header_and_layout() {
    let header = PngHeader { width: 2, height: 3, bit_depth: 8, color_type: 2 };
    let good = inject_exif_chunk(&rgb_image(), &BLOCK).unwrap();
    assert_eq!(accept_encoded(&header, &BLOCK, good.clone()), Ok(good.clone()));
    assert_eq!(accept_encoded(&header, &[9], good.clone()), Err(EmbedError::EncodingError));
    assert_eq!(accept_encoded(&header, &BLOCK, rgb_image()), Err(EmbedError::EncodingError));
    assert_eq!(accept_encoded(&header, &BLOCK, Vec::new()), Err(EmbedError::EncodingError));
    for other in [
        PngHeader { width: 3, height: 3, bit_depth: 8, color_type: 2 },
        PngHeader { width: 2, height: 2, bit_depth: 8, color_type: 2 },
        PngHeader { width: 2, height: 3, bit_depth: 16, color_type: 2 },
        PngHeader { width: 2, height: 3, bit_depth: 8, color_type: 6 },
    ] {
        assert_eq!(accept_encoded(&other, &BLOCK, good.clone()), Err(EmbedError::EncodingError));
    }
}

#[test]
fn numbers_are_read_big_endian() {
    assert_eq!(read_be32(&[0x12, 0x34, 0x56, 0x78], 0), 0x1234_5678);
    assert_eq!(read_be32(&[0, 0xFF, 0xFF, 0xFF, 0xFF], 1), u32::MAX);
    assert_eq!(read_be32(&[0, 0, 0, 13], 0), 13);
}

#[test]
fn chunk_lengths_are_checked_against_the_stream() {
    let data = stream(&[chunk(b"IDAT", &[1, 2, 3])]);
    assert_eq!(chunk_len_at(&data, 8), Some(3));
    assert_eq!(chunk_len_at(&data[..data.len() - 1], 8), None);
    assert_eq!(chunk_len_at(&data, data.len()), None);
    assert_eq!(chunk_len_at(&data, 9), None);
    let empty = chunk(b"IEND", &[]);
    assert_eq!(chunk_len_at(&empty, 0), Some(0));
    assert_eq!(chunk_len_at(&empty[..11], 0), None);
    let huge: [u8; 12] = [0xFF, 0xFF, 0xFF, 0xFF, b'I', b'D', b'A', b'T', 0, 0, 0, 0];
    assert_eq!(chunk_len_at(&huge, 0), None);
}

#[test]
fn chunk_types_are_compared_byte_by_byte() {
    let data = chunk(b"eXIf", &[]);
    assert!(kind_is(&data, 4, *b"eXIf"));
    assert!(!kind_is(&data, 4, *b"EXIF"));
    assert!(!kind_is(&data, 4, *b"eXIg"));
    assert!(!kind_is(&data, 3, *b"eXIf"));
}

#[test]
fn bytes_are_compared() {
    assert!(same_bytes(&[], &[]));
    assert!(same_bytes(&[1, 2, 3], &[1, 2, 3]));
    assert!(!same_bytes(&[1, 2, 3], &[1, 2]));
    assert!(!same_bytes(&[1, 2, 3], &[1, 2, 4]));
    assert!(!same_bytes(&[0, 2, 3], &[1, 2, 3]));
}

#[test]
fn colour_types_go_with_their_depths() {
    let valid: [(u8, u8); 15] = [
        (0, 1), (0, 2), (0, 4), (0, 8), (0, 16),
        (2, 8), (2, 16),
        (3, 1), (3, 2), (3, 4), (3, 8),
        (4, 8), (4, 16),
        (6, 8), (6, 16),
    ];
    for color in 0u8..=8 {
        for depth in 0u8..=32 {
            let expected = valid.contains(&(color, depth));
            assert_eq!(is_valid_combination(color, depth), expected);
            if expected {
                assert_eq!(png::ColorType::from_u8(color).is_some(), true);
                assert_eq!(png::BitDepth::from_u8(depth).is_some(), true);
            }
        }
    }
}

#[test]
fn frames_fit_up_to_the_largest_allocation() {
    assert!(frame_fits(&PngHeader { width: 1, height: 1, bit_depth: 1, color_type: 0 }));
    assert!(frame_fits(&PngHeader { width: 4000, height: 3000, bit_depth: 8, color_type: 6 }));
    assert!(!frame_fits(&PngHeader { width: u32::MAX, height: u32::MAX, bit_depth: 16, color_type: 6 }));
    let rows = (isize::MAX as u128 / 8) as u32;
    if usize::BITS == 32 {
        assert!(frame_fits(&PngHeader { width: 8, height: rows, bit_depth: 8, color_type: 0 }));
        assert!(!frame_fits(&PngHeader { width: 8, height: rows + 1, bit_depth: 8, color_type: 0 }));
    }
}
