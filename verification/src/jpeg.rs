//! The JPEG marker stream: reading its segments, and rewriting it so that it
//! carries one EXIF segment.

use vstd::prelude::*;

use crate::error::{outcome_of, EmbedError};

verus! {

/// The byte that opens every marker.
pub const MARKER_PREFIX: u8 = 0xFF;

/// Start of image.
pub const SOI: u8 = 0xD8;

/// End of image.
pub const EOI: u8 = 0xD9;

/// Start of scan: entropy-coded data follows its header.
pub const SOS: u8 = 0xDA;

/// The application segment that conventionally holds the basic image parameters.
pub const APP0: u8 = 0xE0;

/// The application segment that holds EXIF metadata.
pub const APP1: u8 = 0xE1;

/// The largest EXIF block that fits into one segment: the two-byte length
/// field counts itself.
pub const MAX_EXIF_LEN: usize = 65533;

/// What stands at the head of a stretch of the stream.
#[derive(Clone, Copy, Debug, PartialEq, Eq, Structural)]
pub enum Head {
    /// A whole segment: marker, length field and payload, `size` bytes in all.
    Segment { marker: u8, size: usize },
    /// A lone `0xFF`: a fill byte, or the prefix of a marker that carries no
    /// length.
    Fill,
    /// The start-of-scan marker.
    ScanStart,
    /// A marker whose length field or payload runs past the end of the stream.
    Truncated,
    /// No marker: the byte is not `0xFF`, or fewer than two bytes are left.
    Stray,
}

/// One piece of the stream before its scan data: a segment with all its
/// bytes, or a single fill byte under the marker code `0xFF`.
pub struct Piece {
    pub marker: u8,
    pub bytes: Seq<u8>,
}

/// Where a segment lies in a stream.
#[derive(Clone, Copy, Debug, PartialEq, Eq, Structural)]
pub struct Segment {
    pub marker: u8,
    /// The index of the segment's `0xFF`.
    pub offset: usize,
    /// The number of its bytes, marker included.
    pub size: usize,
}

/// The segments of a stream and the place where its scan data begins.
#[derive(Clone, Debug, PartialEq, Eq)]
pub struct Layout {
    pub segments: Vec<Segment>,
    /// The index of the start-of-scan marker.
    pub scan_offset: usize,
}

pub open spec fn starts_with_soi(stream: Seq<u8>) -> bool {
    stream.len() >= 2 && stream[0] == 0xFF && stream[1] == 0xD8
}

pub open spec fn ends_with_eoi(stream: Seq<u8>) -> bool {
    stream.len() >= 2 && stream[stream.len() - 2] == 0xFF && stream[stream.len() - 1] == 0xD9
}

/// Markers that are followed by a two-byte length: all from `0xC0` to `0xFE`
/// but start of image, end of image and start of scan.
pub open spec fn carries_length(marker: u8) -> bool {
    0xC0 <= marker <= 0xFE && marker != 0xD8 && marker != 0xD9 && marker != 0xDA
}

/// The big-endian number in the two bytes behind a marker.
pub open spec fn declared_length(rest: Seq<u8>) -> int {
    rest[2] * 256 + rest[3]
}

/// What stands at the head of `rest`.
pub open spec fn head_of(rest: Seq<u8>) -> Head {
    if rest.len() < 2 || rest[0] != 0xFF {
        Head::Stray
    } else if rest[1] == 0xDA {
        Head::ScanStart
    } else if carries_length(rest[1]) {
        if rest.len() < 4 || rest.len() < 2 + declared_length(rest) {
            Head::Truncated
        } else {
            Head::Segment { marker: rest[1], size: (2 + declared_length(rest)) as usize }
        }
    } else {
        Head::Fill
    }
}

/// The pieces of `rest` up to the first head that is neither a segment nor a
/// fill byte.
pub open spec fn pieces_of(rest: Seq<u8>) -> Seq<Piece>
    decreases rest.len(),
{
    match head_of(rest) {
        Head::Segment { marker, size } => seq![Piece { marker, bytes: rest.take(size as int) }]
            + pieces_of(rest.skip(size as int)),
        Head::Fill => seq![Piece { marker: 0xFF, bytes: rest.take(1) }] + pieces_of(rest.skip(1)),
        _ => Seq::empty(),
    }
}

/// What is left of `rest` behind its pieces.
pub open spec fn remainder_of(rest: Seq<u8>) -> Seq<u8>
    decreases rest.len(),
{
    match head_of(rest) {
        Head::Segment { marker, size } => remainder_of(rest.skip(size as int)),
        Head::Fill => remainder_of(rest.skip(1)),
        _ => rest,
    }
}

/// The pieces of `rest` lead up to a start-of-scan marker.
pub open spec fn reaches_scan(rest: Seq<u8>) -> bool {
    head_of(remainder_of(rest)) == Head::ScanStart
}

/// The EXIF application segment: marker, big-endian length of the block plus
/// the two bytes of the length itself, and the block.
pub open spec fn exif_segment(exif: Seq<u8>) -> Seq<u8> {
    seq![0xFFu8, 0xE1u8, ((exif.len() + 2) / 256) as u8, ((exif.len() + 2) % 256) as u8] + exif
}

/// The new segment where it is still owed, nothing where it has been written.
pub open spec fn owed(segment: Seq<u8>, pending: bool) -> Seq<u8> {
    if pending {
        segment
    } else {
        Seq::empty()
    }
}

/// `rest` rewritten: earlier EXIF segments are dropped and every other piece
/// is kept. The new segment follows the first `APP0` segment; where there is
/// none it stands in front of the first head that is neither a segment nor a
/// fill byte, and from there on `rest` is kept as it is.
pub open spec fn rewritten_rest(rest: Seq<u8>, segment: Seq<u8>, pending: bool) -> Seq<u8>
    decreases rest.len(),
{
    match head_of(rest) {
        Head::Segment { marker, size } => if marker == 0xE1 {
            rewritten_rest(rest.skip(size as int), segment, pending)
        } else if marker == 0xE0 {
            rest.take(size as int) + owed(segment, pending) + rewritten_rest(
                rest.skip(size as int),
                segment,
                false,
            )
        } else {
            rest.take(size as int) + rewritten_rest(rest.skip(size as int), segment, pending)
        },
        Head::Fill => rest.take(1) + rewritten_rest(rest.skip(1), segment, pending),
        _ => owed(segment, pending) + rest,
    }
}

/// A JPEG stream rewritten to carry `exif` in its one EXIF segment.
pub open spec fn rewritten(jpeg: Seq<u8>, exif: Seq<u8>) -> Seq<u8> {
    jpeg.take(2) + rewritten_rest(jpeg.skip(2), exif_segment(exif), true)
}

/// What rewriting comes to: the block must fit into one segment, and the
/// stream must open with the start-of-image marker.
pub open spec fn rewrite_outcome(jpeg: Seq<u8>, exif: Seq<u8>) -> Result<Seq<u8>, EmbedError> {
    if exif.len() > 65533 {
        Err(EmbedError::EncodingError)
    } else if !starts_with_soi(jpeg) {
        Err(EmbedError::InvalidInputFormat)
    } else {
        Ok(rewritten(jpeg, exif))
    }
}

/// The piece of `stream` that a segment record points at.
pub open spec fn piece_at(stream: Seq<u8>, segment: Segment) -> Piece {
    Piece {
        marker: segment.marker,
        bytes: stream.subrange(segment.offset as int, segment.offset + segment.size),
    }
}

/// The pieces that a list of segment records points at, one by one.
pub open spec fn pieces_at(stream: Seq<u8>, segments: Seq<Segment>) -> Seq<Piece> {
    Seq::new(segments.len(), |k: int| piece_at(stream, segments[k]))
}

/// The record at `k` begins where the one before it ends, or at `start`
/// where it is the first.
pub open spec fn begins_in_place(segments: Seq<Segment>, k: int, start: int) -> bool {
    segments[k].offset == if k == 0 {
        start
    } else {
        segments[k - 1].offset + segments[k - 1].size
    }
}

/// The records lie end to end: the first begins at `start`, each next one
/// where the one before it ends, and the last ends at `end`.
pub open spec fn end_to_end(segments: Seq<Segment>, start: int, end: int) -> bool {
    &&& forall|k: int| 0 <= k < segments.len() ==> #[trigger] begins_in_place(segments, k, start)
    &&& end == if segments.len() == 0 {
        start
    } else {
        segments[segments.len() - 1].offset + segments[segments.len() - 1].size
    }
}

/// What reading the segments of a stream comes to: the stream must open with
/// the start-of-image marker, and its segments must lead up to a
/// start-of-scan marker.
pub open spec fn parse_outcome(stream: Seq<u8>) -> Result<(Seq<Piece>, int), EmbedError> {
    if !starts_with_soi(stream) {
        Err(EmbedError::InvalidInputFormat)
    } else if !reaches_scan(stream.skip(2)) {
        Err(EmbedError::TruncatedSegment)
    } else {
        Ok((pieces_of(stream.skip(2)), stream.len() - remainder_of(stream.skip(2)).len()))
    }
}

/// Tells what stands at `pos` in `data`.
pub fn head_at(data: &[u8], pos: usize) -> (head: Head)
    requires
        pos <= data.len(),
    ensures
        head == head_of(data@.skip(pos as int)),
{
    let left: usize = data.len() - pos;
    if left < 2 || data[pos] != MARKER_PREFIX {
        return Head::Stray;
    }
    let marker: u8 = data[pos + 1];
    if marker == SOS {
        Head::ScanStart
    } else if 0xC0 <= marker && marker <= 0xFE && marker != SOI && marker != EOI {
        if left < 4 {
            Head::Truncated
        } else {
            let declared: usize = data[pos + 2] as usize * 256 + data[pos + 3] as usize;
            if left - 2 < declared {
                Head::Truncated
            } else {
                Head::Segment { marker, size: declared + 2 }
            }
        }
    } else {
        Head::Fill
    }
}

/// Appends the EXIF application segment for `exif_buf` to `output_data`.
pub fn insert_exif(output_data: &mut Vec<u8>, exif_buf: &[u8])
    requires
        exif_buf.len() <= MAX_EXIF_LEN,
    ensures
        final(output_data)@ == old(output_data)@ + exif_segment(exif_buf@),
{
    let length: usize = exif_buf.len() + 2;
    output_data.push(MARKER_PREFIX);
    output_data.push(APP1);
    output_data.push((length / 256) as u8);
    output_data.push((length % 256) as u8);
    output_data.extend_from_slice(exif_buf);
    assert(output_data@ =~= old(output_data)@ + exif_segment(exif_buf@));
}

/// Rewrites a JPEG stream so that it carries `exif` in its one EXIF segment.
///
/// Fails with `EncodingError` where the block is too long for one segment,
/// else with `InvalidInputFormat` where the stream does not open with the
/// start-of-image marker, and nowhere else.
pub fn rewrite_jpeg(jpeg: &[u8], exif: &[u8]) -> (result: Result<Vec<u8>, EmbedError>)
    ensures
        outcome_of(result) == rewrite_outcome(jpeg@, exif@),
{
    if exif.len() > MAX_EXIF_LEN {
        return Err(EmbedError::EncodingError);
    }
    if jpeg.len() < 2 || jpeg[0] != MARKER_PREFIX || jpeg[1] != SOI {
        return Err(EmbedError::InvalidInputFormat);
    }
    let ghost segment = exif_segment(exif@);
    let mut out: Vec<u8> = Vec::new();
    out.extend_from_slice(&jpeg[0..2]);
    assert(out@ =~= jpeg@.take(2));
    let mut i: usize = 2;
    let mut pending: bool = true;
    loop
        invariant_except_break
            2 <= i <= jpeg.len(),
            rewritten(jpeg@, exif@) == out@ + rewritten_rest(jpeg@.skip(i as int), segment, pending),
        invariant
            exif.len() <= MAX_EXIF_LEN,
            segment == exif_segment(exif@),
        ensures
            out@ == rewritten(jpeg@, exif@),
        decreases jpeg.len() - i,
    {
        let ghost rest = jpeg@.skip(i as int);
        let ghost before = out@;
        match head_at(jpeg, i) {
            Head::Segment { marker, size } => {
                assert(rest.take(size as int) =~= jpeg@.subrange(i as int, i + size));
                assert(rest.skip(size as int) =~= jpeg@.skip(i + size));
                if marker != APP1 {
                    out.extend_from_slice(&jpeg[i..i + size]);
                    assert(out@ =~= before + rest.take(size as int));
                    if marker == APP0 && pending {
                        insert_exif(&mut out, exif);
                        pending = false;
                    }
                }
                i += size;
            },
            Head::Fill => {
                assert(rest.take(1) =~= seq![jpeg@[i as int]]);
                assert(rest.skip(1) =~= jpeg@.skip(i + 1));
                out.push(jpeg[i]);
                assert(out@ =~= before + rest.take(1));
                i += 1;
            },
            _ => {
                if pending {
                    insert_exif(&mut out, exif);
                }
                out.extend_from_slice(&jpeg[i..jpeg.len()]);
                assert(jpeg@.subrange(i as int, jpeg.len() as int) =~= rest);
                assert(out@ =~= before + owed(segment, pending) + rest);
                break ;
            },
        }
    }
    Ok(out)
}

/// Reads the segments of a JPEG stream up to its scan data. The records lie
/// end to end from behind the start-of-image marker to the start-of-scan
/// marker; a fill byte is recorded as a segment of one byte under the marker
/// code `0xFF`.
///
/// Fails with `InvalidInputFormat` where the stream does not open with the
/// start-of-image marker, else with `TruncatedSegment` where its segments do
/// not lead up to a start-of-scan marker, and nowhere else.
pub fn parse_segments(data: &[u8]) -> (parsed: Result<Layout, EmbedError>)
    ensures
        match parsed {
            Ok(layout) => parse_outcome(data@) == Ok::<(Seq<Piece>, int), EmbedError>(
                (pieces_at(data@, layout.segments@), layout.scan_offset as int),
            ),
            Err(e) => parse_outcome(data@) == Err::<(Seq<Piece>, int), EmbedError>(e),
        },
        parsed matches Ok(layout) ==> end_to_end(layout.segments@, 2, layout.scan_offset as int)
            && layout.scan_offset <= data.len(),
{
    if data.len() < 2 || data[0] != MARKER_PREFIX || data[1] != SOI {
        return Err(EmbedError::InvalidInputFormat);
    }
    let mut segments: Vec<Segment> = Vec::new();
    let mut i: usize = 2;
    let mut found: bool = false;
    while !found
        invariant
            starts_with_soi(data@),
            2 <= i <= data.len(),
            pieces_of(data@.skip(2)) == pieces_at(data@, segments@) + pieces_of(
                data@.skip(i as int),
            ),
            remainder_of(data@.skip(2)) == remainder_of(data@.skip(i as int)),
            end_to_end(segments@, 2, i as int),
            found ==> head_of(data@.skip(i as int)) == Head::ScanStart,
        decreases data.len() - i + (if found { 0int } else { 1int }),
    {
        let ghost rest = data@.skip(i as int);
        let ghost before = segments@;
        match head_at(data, i) {
            Head::Segment { marker, size } => {
                let segment = Segment { marker, offset: i, size };
                segments.push(segment);
                proof {
                    assert(rest.take(size as int) =~= data@.subrange(i as int, i + size));
                    assert(rest.skip(size as int) =~= data@.skip(i + size));
                    assert(pieces_at(data@, segments@) =~= pieces_at(data@, before) + seq![
                        piece_at(data@, segment),
                    ]);
                    assert forall|k: int| 0 <= k < segments@.len() implies begins_in_place(
                        segments@,
                        k,
                        2,
                    ) by {
                        if k < before.len() {
                            assert(begins_in_place(before, k, 2));
                        }
                    }
                }
                i += size;
            },
            Head::Fill => {
                let segment = Segment { marker: MARKER_PREFIX, offset: i, size: 1 };
                segments.push(segment);
                proof {
                    assert(rest.take(1) =~= data@.subrange(i as int, i + 1));
                    assert(rest.skip(1) =~= data@.skip(i + 1));
                    assert(pieces_at(data@, segments@) =~= pieces_at(data@, before) + seq![
                        piece_at(data@, segment),
                    ]);
                    assert forall|k: int| 0 <= k < segments@.len() implies begins_in_place(
                        segments@,
                        k,
                        2,
                    ) by {
                        if k < before.len() {
                            assert(begins_in_place(before, k, 2));
                        }
                    }
                }
                i += 1;
            },
            Head::ScanStart => {
                found = true;
            },
            _ => {
                assert(remainder_of(rest) == rest);
                return Err(EmbedError::TruncatedSegment);
            },
        }
    }
    proof {
        let rest = data@.skip(i as int);
        assert(pieces_of(rest) == Seq::<Piece>::empty());
        assert(remainder_of(rest) == rest);
        assert(pieces_at(data@, segments@) + Seq::<Piece>::empty() =~= pieces_at(
            data@,
            segments@,
        ));
    }
    Ok(Layout { segments, scan_offset: i })
}

} // verus!
