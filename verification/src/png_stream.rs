//! The PNG chunk stream: its signature, its header chunk, and the order of
//! its chunks.

use vstd::prelude::*;

verus! {

/// The bytes that a chunk takes besides its data: length, type and checksum.
pub const CHUNK_FRAME: usize = 12;

/// The number of bytes in the signature.
pub const SIGNATURE_LEN: usize = 8;

/// The number of data bytes in a header chunk.
pub const HEADER_DATA_LEN: usize = 13;

/// The eight bytes that open every PNG stream.
pub open spec fn png_signature() -> Seq<u8> {
    seq![137u8, 80u8, 78u8, 71u8, 13u8, 10u8, 26u8, 10u8]
}

/// The type of the header chunk, `IHDR`.
pub open spec fn header_kind() -> Seq<u8> {
    seq![0x49u8, 0x48u8, 0x44u8, 0x52u8]
}

/// The type of the chunk that holds EXIF data, `eXIf`.
pub open spec fn exif_kind() -> Seq<u8> {
    seq![0x65u8, 0x58u8, 0x49u8, 0x66u8]
}

/// The type of the chunks that hold image data, `IDAT`.
pub open spec fn image_data_kind() -> Seq<u8> {
    seq![0x49u8, 0x44u8, 0x41u8, 0x54u8]
}

/// The type of the trailer chunk, `IEND`.
pub open spec fn trailer_kind() -> Seq<u8> {
    seq![0x49u8, 0x45u8, 0x4Eu8, 0x44u8]
}

/// The big-endian number in the four bytes at `at`.
pub open spec fn be32(bytes: Seq<u8>, at: int) -> int {
    bytes[at] * 0x100_0000 + bytes[at + 1] * 0x1_0000 + bytes[at + 2] * 0x100 + bytes[at + 3]
}

/// One chunk: its four-byte type and its data.
pub struct Chunk {
    pub kind: Seq<u8>,
    pub data: Seq<u8>,
}

/// `rest` opens with a whole chunk: length, type, data and checksum.
pub open spec fn opens_with_chunk(rest: Seq<u8>) -> bool {
    rest.len() >= 12 && rest.len() >= 12 + be32(rest, 0)
}

/// The chunk with which `rest` opens.
pub open spec fn first_chunk(rest: Seq<u8>) -> Chunk {
    Chunk { kind: rest.subrange(4, 8), data: rest.subrange(8, 8 + be32(rest, 0)) }
}

/// The chunks of `rest`, up to the first place where no whole chunk stands.
pub open spec fn chunks_of(rest: Seq<u8>) -> Seq<Chunk>
    decreases rest.len(),
{
    if opens_with_chunk(rest) {
        seq![first_chunk(rest)] + chunks_of(rest.skip(12 + be32(rest, 0)))
    } else {
        Seq::empty()
    }
}

/// What is left of `rest` behind its chunks.
pub open spec fn unchunked(rest: Seq<u8>) -> Seq<u8>
    decreases rest.len(),
{
    if opens_with_chunk(rest) {
        unchunked(rest.skip(12 + be32(rest, 0)))
    } else {
        rest
    }
}

/// The fields of a header chunk that describe the pixels.
#[derive(Clone, Copy, Debug, PartialEq, Eq, Structural)]
pub struct PngHeader {
    pub width: u32,
    pub height: u32,
    pub bit_depth: u8,
    pub color_type: u8,
}

/// The pairs of colour type and bit depth that the format allows.
pub open spec fn valid_combination(color_type: u8, bit_depth: u8) -> bool {
    ||| color_type == 0 && (bit_depth == 1 || bit_depth == 2 || bit_depth == 4 || bit_depth == 8
        || bit_depth == 16)
    ||| color_type == 3 && (bit_depth == 1 || bit_depth == 2 || bit_depth == 4 || bit_depth == 8)
    ||| (color_type == 2 || color_type == 4 || color_type == 6) && (bit_depth == 8 || bit_depth
        == 16)
}

/// The number of samples that make one pixel.
pub open spec fn samples_per_pixel(color_type: u8) -> int {
    if color_type == 2 {
        3
    } else if color_type == 4 {
        2
    } else if color_type == 6 {
        4
    } else {
        1
    }
}

/// The number of bytes that hold the pixels of a whole image, row after row,
/// each row filled up to a whole byte.
pub open spec fn frame_bytes(header: PngHeader) -> int {
    (header.width * samples_per_pixel(header.color_type) * header.bit_depth + 7) / 8
        * header.height
}

/// The header that thirteen bytes of chunk data describe.
pub open spec fn header_from(data: Seq<u8>) -> PngHeader {
    PngHeader {
        width: be32(data, 0) as u32,
        height: be32(data, 4) as u32,
        bit_depth: data[8],
        color_type: data[9],
    }
}

/// Thirteen bytes of chunk data describe an image: it has pixels, its colour
/// type and bit depth go together, and its compression, filter and interlace
/// methods are ones that the format knows.
pub open spec fn describes_image(data: Seq<u8>) -> bool {
    &&& data.len() == 13
    &&& be32(data, 0) != 0
    &&& be32(data, 4) != 0
    &&& valid_combination(data[9], data[8])
    &&& data[10] == 0
    &&& data[11] == 0
    &&& data[12] <= 1
}

/// The stream opens with the signature and a header chunk that describes an
/// image.
pub open spec fn has_header(stream: Seq<u8>) -> bool {
    &&& stream.len() >= 8
    &&& stream.take(8) == png_signature()
    &&& opens_with_chunk(stream.skip(8))
    &&& first_chunk(stream.skip(8)).kind == header_kind()
    &&& describes_image(first_chunk(stream.skip(8)).data)
}

/// The header of a stream that has one.
pub open spec fn header_of(stream: Seq<u8>) -> PngHeader {
    header_from(first_chunk(stream.skip(8)).data)
}

/// The stream is a signature and then nothing but whole chunks: the header
/// chunk, one EXIF chunk that holds `exif`, one or more chunks of image data,
/// and the trailer.
pub open spec fn carries_exif(stream: Seq<u8>, exif: Seq<u8>) -> bool {
    let chunks = chunks_of(stream.skip(8));
    &&& has_header(stream)
    &&& unchunked(stream.skip(8)).len() == 0
    &&& chunks.len() >= 4
    &&& chunks[1].kind == exif_kind()
    &&& chunks[1].data == exif
    &&& forall|k: int| 2 <= k < chunks.len() - 1 ==> (#[trigger] chunks[k]).kind == image_data_kind()
    &&& chunks[chunks.len() - 1].kind == trailer_kind()
}

/// Reads the big-endian number in the four bytes at `at`.
pub fn read_be32(data: &[u8], at: usize) -> (value: u32)
    requires
        at + 4 <= data.len(),
    ensures
        value == be32(data@, at as int),
{
    let a: u32 = data[at] as u32;
    let b: u32 = data[at + 1] as u32;
    let c: u32 = data[at + 2] as u32;
    let d: u32 = data[at + 3] as u32;
    a * 0x100_0000 + b * 0x1_0000 + c * 0x100 + d
}

/// Tells whether a whole chunk stands at `pos`, and if so how many data bytes
/// it holds.
pub fn chunk_len_at(data: &[u8], pos: usize) -> (len: Option<usize>)
    requires
        pos <= data.len(),
    ensures
        len.is_some() == opens_with_chunk(data@.skip(pos as int)),
        len matches Some(n) ==> n == be32(data@.skip(pos as int), 0) && pos + 12 + n <= data.len(),
{
    let left: usize = data.len() - pos;
    if left < CHUNK_FRAME {
        return None;
    }
    let declared: u32 = read_be32(data, pos);
    assert(be32(data@, pos as int) == be32(data@.skip(pos as int), 0));
    if (left - CHUNK_FRAME) as u64 >= declared as u64 {
        Some(declared as usize)
    } else {
        None
    }
}

/// Tells whether the four bytes at `at` are the chunk type `kind`.
pub fn kind_is(data: &[u8], at: usize, kind: [u8; 4]) -> (same: bool)
    requires
        at + 4 <= data.len(),
    ensures
        same == (data@.subrange(at as int, at + 4) == kind@),
{
    let same: bool = data[at] == kind[0] && data[at + 1] == kind[1] && data[at + 2] == kind[2]
        && data[at + 3] == kind[3];
    proof {
        let part = data@.subrange(at as int, at + 4);
        assert(part.len() == 4 && kind@.len() == 4);
        if same {
            assert(part =~= kind@);
        } else {
            assert(part[0] == data@[at as int] && part[1] == data@[at + 1] && part[2] == data@[at
                + 2] && part[3] == data@[at + 3]);
        }
    }
    same
}

/// Tells whether a colour type and a bit depth go together.
pub fn is_valid_combination(color_type: u8, bit_depth: u8) -> (valid: bool)
    ensures
        valid == valid_combination(color_type, bit_depth),
{
    if color_type == 0 {
        bit_depth == 1 || bit_depth == 2 || bit_depth == 4 || bit_depth == 8 || bit_depth == 16
    } else if color_type == 3 {
        bit_depth == 1 || bit_depth == 2 || bit_depth == 4 || bit_depth == 8
    } else if color_type == 2 || color_type == 4 || color_type == 6 {
        bit_depth == 8 || bit_depth == 16
    } else {
        false
    }
}

/// Tells whether two stretches of bytes are the same.
pub fn same_bytes(a: &[u8], b: &[u8]) -> (same: bool)
    ensures
        same == (a@ == b@),
{
    if a.len() != b.len() {
        return false;
    }
    let mut i: usize = 0;
    while i < a.len()
        invariant
            i <= a.len(),
            a.len() == b.len(),
            forall|k: int| 0 <= k < i ==> a@[k] == b@[k],
        decreases a.len() - i,
    {
        if a[i] != b[i] {
            return false;
        }
        i += 1;
    }
    assert(a@ =~= b@);
    true
}

/// Reads the header of a PNG stream.
///
/// There is one exactly where the stream opens with the signature and a
/// header chunk that describes an image.
pub fn read_header(data: &[u8]) -> (header: Option<PngHeader>)
    ensures
        header.is_some() == has_header(data@),
        header matches Some(h) ==> h == header_of(data@),
{
    if data.len() < SIGNATURE_LEN {
        return None;
    }
    let signed: bool = data[0] == 137 && data[1] == 80 && data[2] == 78 && data[3] == 71
        && data[4] == 13 && data[5] == 10 && data[6] == 26 && data[7] == 10;
    proof {
        let opening = data@.take(8);
        if signed {
            assert(opening =~= png_signature());
        } else {
            assert(opening[0] == data@[0] && opening[1] == data@[1] && opening[2] == data@[2]
                && opening[3] == data@[3] && opening[4] == data@[4] && opening[5] == data@[5]
                && opening[6] == data@[6] && opening[7] == data@[7]);
        }
    }
    if !signed {
        return None;
    }
    let ghost rest = data@.skip(8);
    let ghost fields = first_chunk(rest).data;
    match chunk_len_at(data, SIGNATURE_LEN) {
        None => None,
        Some(len) => {
            assert(first_chunk(rest).kind =~= data@.subrange(12, 16));
            assert(fields =~= data@.subrange(16, 16 + len));
            if len != HEADER_DATA_LEN || !kind_is(data, 12, [0x49u8, 0x48u8, 0x44u8, 0x52u8]) {
                return None;
            }
            let width: u32 = read_be32(data, 16);
            let height: u32 = read_be32(data, 20);
            let bit_depth: u8 = data[24];
            let color_type: u8 = data[25];
            assert(be32(fields, 0) == be32(data@, 16));
            assert(be32(fields, 4) == be32(data@, 20));
            assert(fields[8] == data@[24] && fields[9] == data@[25] && fields[10] == data@[26]
                && fields[11] == data@[27] && fields[12] == data@[28]);
            if width == 0 || height == 0 || !is_valid_combination(color_type, bit_depth)
                || data[26] != 0 || data[27] != 0 || data[28] > 1 {
                return None;
            }
            Some(PngHeader { width, height, bit_depth, color_type })
        },
    }
}

/// Tells whether the pixels of a whole image fit into one allocation.
pub fn frame_fits(header: &PngHeader) -> (fits: bool)
    ensures
        fits == (frame_bytes(*header) <= isize::MAX),
{
    let samples: u128 = if header.color_type == 2 {
        3
    } else if header.color_type == 4 {
        2
    } else if header.color_type == 6 {
        4
    } else {
        1
    };
    let width: u128 = header.width as u128;
    let depth: u128 = header.bit_depth as u128;
    let height: u128 = header.height as u128;
    assert(width * samples <= 0xFFFF_FFFF * 4) by (nonlinear_arith)
        requires
            width <= 0xFFFF_FFFF,
            samples <= 4,
    ;
    let per_row: u128 = width * samples;
    assert(per_row * depth <= 0xFFFF_FFFF * 4 * 255) by (nonlinear_arith)
        requires
            per_row <= 0xFFFF_FFFF * 4,
            depth <= 255,
    ;
    let row: u128 = (per_row * depth + 7) / 8;
    assert(row * height <= 0xFFFF_FFFF * 4 * 255 * 0xFFFF_FFFF) by (nonlinear_arith)
        requires
            row <= 0xFFFF_FFFF * 4 * 255,
            height <= 0xFFFF_FFFF,
    ;
    let total: u128 = row * height;
    assert(total == frame_bytes(*header)) by (nonlinear_arith)
        requires
            total == row * height,
            row == (per_row * depth + 7) / 8,
            per_row == width * samples,
            width == header.width,
            height == header.height,
            depth == header.bit_depth,
            samples == samples_per_pixel(header.color_type),
            frame_bytes(*header) == (header.width * samples_per_pixel(header.color_type)
                * header.bit_depth + 7) / 8 * header.height,
    ;
    total <= isize::MAX as u128
}

/// Tells whether a stream is a signature, a header chunk, one EXIF chunk that
/// holds `exif`, one or more chunks of image data, and the trailer, with
/// nothing before, between or behind them.
pub fn has_exif_layout(data: &[u8], exif: &[u8]) -> (ok: bool)
    ensures
        ok == carries_exif(data@, exif@),
{
    if read_header(data).is_none() {
        return false;
    }
    let ghost body = data@.skip(8);
    let ghost mut done: Seq<Chunk> = Seq::empty();
    let mut pos: usize = SIGNATURE_LEN;
    let mut count: usize = 0;
    let mut exif_ok: bool = false;
    let mut middle_ok: bool = true;
    let mut last_is_image_data: bool = false;
    let mut last_is_trailer: bool = false;
    assert(done + chunks_of(body) =~= chunks_of(body));
    loop
        invariant
            8 <= pos <= data.len(),
            body == data@.skip(8),
            chunks_of(body) == done + chunks_of(data@.skip(pos as int)),
            unchunked(body) == unchunked(data@.skip(pos as int)),
            done.len() == count,
            count <= pos,
            count >= 2 ==> exif_ok == (done[1].kind == exif_kind() && done[1].data == exif@),
            middle_ok == (forall|k: int|
                2 <= k < count - 1 ==> (#[trigger] done[k]).kind == image_data_kind()),
            count >= 1 ==> last_is_image_data == (done[count - 1].kind == image_data_kind()),
            count >= 1 ==> last_is_trailer == (done[count - 1].kind == trailer_kind()),
        ensures
            !opens_with_chunk(data@.skip(pos as int)),
        decreases data.len() - pos,
    {
        match chunk_len_at(data, pos) {
            None => {
                break ;
            },
            Some(len) => {
                let ghost rest = data@.skip(pos as int);
                let ghost chunk = first_chunk(rest);
                let ghost before = done;
                proof {
                    assert(chunk.kind =~= data@.subrange(pos + 4, pos + 8));
                    assert(chunk.data =~= data@.subrange(pos + 8, pos + 8 + len));
                    assert(rest.skip(12 + len) =~= data@.skip(pos + 12 + len));
                    done = done.push(chunk);
                    assert(done + chunks_of(data@.skip(pos + 12 + len)) =~= before + chunks_of(
                        rest,
                    ));
                }
                if count == 1 {
                    exif_ok = kind_is(data, pos + 4, [0x65u8, 0x58u8, 0x49u8, 0x66u8])
                        && same_bytes(&data[pos + 8..pos + 8 + len], exif);
                }
                if count >= 3 && !last_is_image_data {
                    middle_ok = false;
                }
                last_is_image_data = kind_is(data, pos + 4, [0x49u8, 0x44u8, 0x41u8, 0x54u8]);
                last_is_trailer = kind_is(data, pos + 4, [0x49u8, 0x45u8, 0x4Eu8, 0x44u8]);
                proof {
                    assert(forall|k: int| 0 <= k < count ==> done[k] == before[k]);
                    let a4: [u8; 4] = [0x65u8, 0x58u8, 0x49u8, 0x66u8];
                    let b4: [u8; 4] = [0x49u8, 0x44u8, 0x41u8, 0x54u8];
                    let c4: [u8; 4] = [0x49u8, 0x45u8, 0x4Eu8, 0x44u8];
                    assert(a4@ =~= exif_kind());
                    assert(b4@ =~= image_data_kind());
                    assert(c4@ =~= trailer_kind());
                }
                pos += CHUNK_FRAME + len;
                count += 1;
            },
        }
    }
    proof {
        assert(chunks_of(data@.skip(pos as int)) == Seq::<Chunk>::empty());
        assert(done + Seq::<Chunk>::empty() =~= done);
        assert(unchunked(data@.skip(pos as int)) == data@.skip(pos as int));
    }
    pos == data.len() && count >= 4 && exif_ok && middle_ok && last_is_trailer
}

} // verus!
