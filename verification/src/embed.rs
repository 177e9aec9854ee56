//! Embedding a position and a capture time into an image, whatever its
//! container.

use vstd::prelude::*;
use vstd::string::StringSliceAdditionalSpecFns;

use crate::coords::GeoPosition;
use crate::error::{outcome_of, EmbedError};
use crate::exif_block::{create_exif_data, exif_block_of, CaptureInstant};
use crate::jpeg::{rewrite_jpeg, rewrite_outcome};
use crate::png_exif::{inject_exif_chunk, inject_outcome};

verus! {

/// The containers that can take metadata.
#[derive(Clone, Copy, Debug, PartialEq, Eq, Structural)]
pub enum MediaKind {
    Jpeg,
    Png,
}

/// A byte with an upper-case ASCII letter turned into its lower-case form.
pub open spec fn lower_case(byte: u8) -> u8 {
    if 0x41 <= byte <= 0x5A {
        (byte + 0x20) as u8
    } else {
        byte
    }
}

/// `name` ends in `suffix`, whatever the case of its ASCII letters; `suffix`
/// is taken to be in lower case.
pub open spec fn ends_in(name: Seq<u8>, suffix: Seq<u8>) -> bool {
    &&& name.len() >= suffix.len()
    &&& forall|k: int|
        0 <= k < suffix.len() ==> lower_case(name[name.len() - suffix.len() + k])
            == #[trigger] suffix[k]
}

/// `.jpg`
pub open spec fn jpg_suffix() -> Seq<u8> {
    seq![0x2Eu8, 0x6Au8, 0x70u8, 0x67u8]
}

/// `.jpeg`
pub open spec fn jpeg_suffix() -> Seq<u8> {
    seq![0x2Eu8, 0x6Au8, 0x70u8, 0x65u8, 0x67u8]
}

/// `.png`
pub open spec fn png_suffix() -> Seq<u8> {
    seq![0x2Eu8, 0x70u8, 0x6Eu8, 0x67u8]
}

/// The container that a file name stands for: JPEG for `.jpg` and `.jpeg`,
/// PNG for `.png`, in any case of the letters.
pub open spec fn media_kind_of(name: Seq<u8>) -> Option<MediaKind> {
    if ends_in(name, jpg_suffix()) || ends_in(name, jpeg_suffix()) {
        Some(MediaKind::Jpeg)
    } else if ends_in(name, png_suffix()) {
        Some(MediaKind::Png)
    } else {
        None
    }
}

/// What embedding into a JPEG stream comes to.
pub open spec fn jpeg_outcome(jpeg: Seq<u8>, position: GeoPosition, instant: CaptureInstant)
    -> Result<Seq<u8>, EmbedError> {
    match exif_block_of(position, instant) {
        None => Err(EmbedError::EncodingError),
        Some(block) => rewrite_outcome(jpeg, block),
    }
}

/// What embedding into a PNG stream comes to.
pub open spec fn png_outcome(png: Seq<u8>, position: GeoPosition, instant: CaptureInstant)
    -> Result<Seq<u8>, EmbedError> {
    match exif_block_of(position, instant) {
        None => Err(EmbedError::EncodingError),
        Some(block) => inject_outcome(png, block),
    }
}

/// What embedding into a file of a given name comes to.
pub open spec fn embed_outcome(
    name: Seq<u8>,
    data: Seq<u8>,
    position: GeoPosition,
    instant: CaptureInstant,
) -> Result<Seq<u8>, EmbedError> {
    match media_kind_of(name) {
        Some(MediaKind::Jpeg) => jpeg_outcome(data, position, instant),
        Some(MediaKind::Png) => png_outcome(data, position, instant),
        None => Err(EmbedError::UnsupportedFormat),
    }
}

fn to_lower(byte: u8) -> (lowered: u8)
    ensures
        lowered == lower_case(byte),
{
    if 0x41 <= byte && byte <= 0x5A {
        byte + 0x20
    } else {
        byte
    }
}

/// Tells whether `name` ends in `suffix`, whatever the case of its ASCII
/// letters.
pub fn has_suffix(name: &[u8], suffix: &[u8]) -> (found: bool)
    ensures
        found == ends_in(name@, suffix@),
{
    if name.len() < suffix.len() {
        return false;
    }
    let start: usize = name.len() - suffix.len();
    let mut k: usize = 0;
    while k < suffix.len()
        invariant
            k <= suffix.len(),
            start + suffix.len() == name.len(),
            forall|j: int| 0 <= j < k ==> lower_case(name@[start + j]) == #[trigger] suffix@[j],
        decreases suffix.len() - k,
    {
        if to_lower(name[start + k]) != suffix[k] {
            return false;
        }
        k += 1;
    }
    true
}

/// Tells the container that a file name stands for.
pub fn media_kind(file_name: &str) -> (kind: Option<MediaKind>)
    ensures
        kind == media_kind_of(file_name.spec_bytes()),
{
    let name: &[u8] = file_name.as_bytes();
    let jpg: [u8; 4] = [0x2Eu8, 0x6Au8, 0x70u8, 0x67u8];
    let jpeg: [u8; 5] = [0x2Eu8, 0x6Au8, 0x70u8, 0x65u8, 0x67u8];
    let png: [u8; 4] = [0x2Eu8, 0x70u8, 0x6Eu8, 0x67u8];
    proof {
        assert(jpg@ =~= jpg_suffix());
        assert(jpeg@ =~= jpeg_suffix());
        assert(png@ =~= png_suffix());
    }
    if has_suffix(name, jpg.as_slice()) || has_suffix(name, jpeg.as_slice()) {
        Some(MediaKind::Jpeg)
    } else if has_suffix(name, png.as_slice()) {
        Some(MediaKind::Png)
    } else {
        None
    }
}

/// Embeds a position and a capture time into a JPEG stream.
///
/// Fails with `EncodingError` where no EXIF block can be made or the block is
/// too long for one segment, else with `InvalidInputFormat` where the stream
/// does not open with the start-of-image marker, and nowhere else.
pub fn update_jpeg_metadata(jpeg_data: &[u8], position: &GeoPosition, instant: CaptureInstant) -> (result:
    Result<Vec<u8>, EmbedError>)
    requires
        position.altitude_fits(),
    ensures
        outcome_of(result) == jpeg_outcome(jpeg_data@, *position, instant),
{
    match create_exif_data(position, instant) {
        Ok(block) => rewrite_jpeg(jpeg_data, block.as_slice()),
        Err(e) => Err(e),
    }
}

/// Embeds a position and a capture time into a PNG stream.
///
/// Fails with `EncodingError` where no EXIF block can be made, else with
/// `InvalidInputFormat` where the stream has no PNG header, else with
/// `EncodingError` where the codec fails, and nowhere else.
pub fn update_png_metadata(png_data: &[u8], position: &GeoPosition, instant: CaptureInstant) -> (result:
    Result<Vec<u8>, EmbedError>)
    requires
        position.altitude_fits(),
    ensures
        outcome_of(result) == png_outcome(png_data@, *position, instant),
{
    match create_exif_data(position, instant) {
        Ok(block) => inject_exif_chunk(png_data, block.as_slice()),
        Err(e) => Err(e),
    }
}

/// Embeds a position and a capture time into the image of a file, going by
/// the extension of the file's name.
///
/// Fails with `UnsupportedFormat` where the name stands for neither JPEG nor
/// PNG, and else as embedding into that container fails.
pub fn embed_metadata(
    file_name: &str,
    data: &[u8],
    position: &GeoPosition,
    instant: CaptureInstant,
) -> (result: Result<Vec<u8>, EmbedError>)
    requires
        position.altitude_fits(),
    ensures
        outcome_of(result) == embed_outcome(file_name.spec_bytes(), data@, *position, instant),
{
    match media_kind(file_name) {
        Some(MediaKind::Jpeg) => update_jpeg_metadata(data, position, instant),
        Some(MediaKind::Png) => update_png_metadata(data, position, instant),
        None => Err(EmbedError::UnsupportedFormat),
    }
}

} // verus!
