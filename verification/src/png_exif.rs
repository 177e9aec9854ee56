//! Putting an EXIF block into a PNG stream: the image is decoded and encoded
//! anew, with the block in a chunk of its own between the header and the
//! image data.

use vstd::prelude::*;

use crate::error::{outcome_of, EmbedError};
use crate::png_stream::{
    carries_exif, exif_kind, frame_bytes, frame_fits, has_exif_layout, has_header, header_of,
    read_header, valid_combination, PngHeader,
};

verus! {

/// A decoded image: what its header says of the pixels, and the pixels, row
/// after row.
#[derive(Clone, Debug, PartialEq, Eq)]
pub struct Raster {
    pub header: PngHeader,
    pub pixels: Vec<u8>,
}

/// What a `Raster` holds.
pub struct RasterContent {
    pub header: PngHeader,
    pub pixels: Seq<u8>,
}

impl View for Raster {
    type V = RasterContent;

    open spec fn view(&self) -> RasterContent {
        RasterContent { header: self.header, pixels: self.pixels@ }
    }
}

/// The failure of the PNG decoder.
#[verifier::external_type_specification]
#[verifier::external_body]
pub struct ExDecodingError(::png::DecodingError);

/// The failure of the PNG encoder.
#[verifier::external_type_specification]
#[verifier::external_body]
pub struct ExEncodingError(::png::EncodingError);

/// The image that the PNG decoder makes of a stream: the header fields that
/// it reports and the pixels of the first frame; `None` where it fails.
pub uninterp spec fn png_decoding(stream: Seq<u8>) -> Option<RasterContent>;

/// The stream that the PNG encoder makes of an image and of one chunk to be
/// written between the header and the image data; `None` where it fails.
pub uninterp spec fn png_encoding(raster: RasterContent, kind: Seq<u8>, chunk: Seq<u8>) -> Option<
    Seq<u8>,
>;

/// Has `png::Decoder::read_info` read the stream up to its image data and
/// `Reader::next_frame` decode the first frame into a buffer of
/// `Reader::output_buffer_size` bytes; reports width, height, bit depth and
/// colour type as `Reader::info` gives them. The image depends on nothing but
/// the stream. The header is asked for so that the size of the buffer is one
/// that can be allocated.
#[verifier::external_body]
fn decode_png(data: &[u8]) -> (decoded: Result<Raster, ::png::DecodingError>)
    requires
        has_header(data@),
        frame_bytes(header_of(data@)) <= isize::MAX,
    ensures
        png_decoding(data@) == (match decoded {
            Ok(raster) => Some(raster@),
            Err(_) => None,
        }),
{
    let mut reader = ::png::Decoder::new(data).read_info()?;
    let mut pixels = vec![0; reader.output_buffer_size()];
    reader.next_frame(&mut pixels)?;
    let info = reader.info();
    let (bit_depth, color_type) = (info.bit_depth as u8, info.color_type as u8);
    Ok(Raster { header: PngHeader { width: info.width, height: info.height, bit_depth, color_type }, pixels })
}

/// Has `png::Encoder` write a header for the image, `Writer::write_chunk` one
/// chunk of the given type, `Writer::write_image_data` the pixels and
/// `Writer::finish` the trailer, all into memory. The stream depends on
/// nothing but the image, the chunk's type and the chunk's data. The bit
/// depth and the colour type are asked to be ones that the encoder knows.
#[verifier::external_body]
fn encode_png(raster: &Raster, kind: [u8; 4], chunk: &[u8]) -> (encoded: Result<
    Vec<u8>,
    ::png::EncodingError,
>)
    requires
        valid_combination(raster.header.color_type, raster.header.bit_depth),
        frame_bytes(raster.header) <= isize::MAX,
    ensures
        png_encoding(raster@, kind@, chunk@) == (match encoded {
            Ok(bytes) => Some(bytes@),
            Err(_) => None,
        }),
{
    let mut out = Vec::new();
    let mut encoder = ::png::Encoder::new(&mut out, raster.header.width, raster.header.height);
    encoder.set_color(::png::ColorType::from_u8(raster.header.color_type).unwrap());
    encoder.set_depth(::png::BitDepth::from_u8(raster.header.bit_depth).unwrap());
    let mut writer = encoder.write_header()?;
    writer.write_chunk(::png::chunk::ChunkType(kind), chunk)?;
    writer.write_image_data(&raster.pixels)?;
    writer.finish()?;
    Ok(out)
}

/// What becomes of an encoded stream: it is accepted where it has the header
/// fields asked for and the layout that carries `exif`, and refused elsewhere.
pub open spec fn accepted(header: PngHeader, exif: Seq<u8>, encoded: Seq<u8>) -> Result<
    Seq<u8>,
    EmbedError,
> {
    if carries_exif(encoded, exif) && header_of(encoded) == header {
        Ok(encoded)
    } else {
        Err(EmbedError::EncodingError)
    }
}

/// What putting `exif` into a PNG stream comes to.
///
/// The stream must have a header, or it is no PNG. Every other failure is
/// one of the codec: the image is too large to hold, it cannot be decoded, the
/// decoder reports another header than the stream declares, the image cannot
/// be encoded, or the encoded stream is not accepted.
pub open spec fn inject_outcome(png: Seq<u8>, exif: Seq<u8>) -> Result<Seq<u8>, EmbedError> {
    if !has_header(png) {
        Err(EmbedError::InvalidInputFormat)
    } else if frame_bytes(header_of(png)) > isize::MAX {
        Err(EmbedError::EncodingError)
    } else {
        match png_decoding(png) {
            None => Err(EmbedError::EncodingError),
            Some(raster) => if raster.header != header_of(png) {
                Err(EmbedError::EncodingError)
            } else {
                match png_encoding(raster, exif_kind(), exif) {
                    None => Err(EmbedError::EncodingError),
                    Some(encoded) => accepted(header_of(png), exif, encoded),
                }
            },
        }
    }
}

/// Accepts an encoded stream that has the header fields asked for and the
/// layout that carries `exif`; refuses every other with `EncodingError`.
pub fn accept_encoded(header: &PngHeader, exif: &[u8], encoded: Vec<u8>) -> (result: Result<
    Vec<u8>,
    EmbedError,
>)
    ensures
        outcome_of(result) == accepted(*header, exif@, encoded@),
{
    if !has_exif_layout(encoded.as_slice(), exif) {
        return Err(EmbedError::EncodingError);
    }
    match read_header(encoded.as_slice()) {
        Some(found) => {
            if found.width == header.width && found.height == header.height && found.bit_depth
                == header.bit_depth && found.color_type == header.color_type {
                Ok(encoded)
            } else {
                Err(EmbedError::EncodingError)
            }
        },
        None => Err(EmbedError::EncodingError),
    }
}

/// Puts `exif` into a PNG stream, in a chunk of its own between the header
/// and the image data.
pub fn inject_exif_chunk(png: &[u8], exif: &[u8]) -> (result: Result<Vec<u8>, EmbedError>)
    ensures
        outcome_of(result) == inject_outcome(png@, exif@),
{
    let header: PngHeader = match read_header(png) {
        Some(header) => header,
        None => {
            return Err(EmbedError::InvalidInputFormat);
        },
    };
    if !frame_fits(&header) {
        return Err(EmbedError::EncodingError);
    }
    let raster: Raster = match decode_png(png) {
        Ok(raster) => raster,
        Err(_) => {
            return Err(EmbedError::EncodingError);
        },
    };
    if raster.header.width != header.width || raster.header.height != header.height
        || raster.header.bit_depth != header.bit_depth || raster.header.color_type
        != header.color_type {
        return Err(EmbedError::EncodingError);
    }
    let kind: [u8; 4] = [0x65u8, 0x58u8, 0x49u8, 0x66u8];
    assert(kind@ =~= exif_kind());
    match encode_png(&raster, kind, exif) {
        Ok(encoded) => accept_encoded(&header, exif, encoded),
        Err(_) => Err(EmbedError::EncodingError),
    }
}

/// Whatever stream comes out, it has the header fields of the stream that
/// went in: width, height, bit depth and colour type. It is the encoder's
/// stream for the very pixels that the decoder made of the input, and it
/// holds the header chunk, the EXIF chunk with the block, the image data and
/// the trailer, in this order and nothing else.
pub proof fn injected_stream_keeps_image(png: Seq<u8>, exif: Seq<u8>, out: Seq<u8>)
    requires
        inject_outcome(png, exif) == Ok::<Seq<u8>, EmbedError>(out),
    ensures
        has_header(png),
        has_header(out),
        header_of(out) == header_of(png),
        carries_exif(out, exif),
        png_decoding(png) matches Some(raster) && raster.header == header_of(png) && png_encoding(
            raster,
            exif_kind(),
            exif,
        ) == Some(out),
{
}

} // verus!
