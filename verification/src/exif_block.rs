//! The EXIF block: a TIFF structure with a GPS directory and three date-time
//! tags, behind the six-byte EXIF signature.

use std::fmt::Write;
use vstd::prelude::*;

use crate::coords::{
    altitude_of, altitude_rational, altitude_ref, altitude_ref_of, dms_of, latitude_ref,
    latitude_ref_of, longitude_ref, longitude_ref_of, to_dms, Dms, GeoPosition, Rational,
};
use crate::error::{outcome_of, EmbedError};

verus! {

/// The moment a picture was taken: whole seconds since 1970-01-01T00:00:00 UTC.
#[derive(Clone, Copy, Debug, PartialEq, Eq, Structural)]
pub struct CaptureInstant {
    pub epoch_seconds: i64,
}

/// The directory of a TIFF structure in which a tag lives.
#[derive(Clone, Copy, Debug, PartialEq, Eq, Structural)]
pub enum IfdGroup {
    /// The image's own directory.
    Tiff,
    /// The EXIF sub-directory.
    Exif,
    /// The GPS sub-directory.
    Gps,
}

/// The value of one tag.
#[derive(Clone, Debug, PartialEq, Eq)]
pub enum FieldData {
    /// Unsigned bytes.
    Byte(Vec<u8>),
    /// One string of 7-bit text; the terminating NUL is not part of it.
    Ascii(Vec<u8>),
    /// Unsigned fractions.
    Rational(Vec<Rational>),
}

/// One tag of the directory: where it lives, its number, and its value.
#[derive(Clone, Debug, PartialEq, Eq)]
pub struct Entry {
    /// The image that the tag describes; 0 is the primary image.
    pub image: u16,
    pub group: IfdGroup,
    pub tag: u16,
    pub data: FieldData,
}

/// What a `FieldData` holds.
pub enum FieldContent {
    Byte(Seq<u8>),
    Ascii(Seq<u8>),
    Rational(Seq<Rational>),
}

/// What an `Entry` holds.
pub struct EntryContent {
    pub image: u16,
    pub group: IfdGroup,
    pub tag: u16,
    pub data: FieldContent,
}

impl View for FieldData {
    type V = FieldContent;

    open spec fn view(&self) -> FieldContent {
        match *self {
            FieldData::Byte(bytes) => FieldContent::Byte(bytes@),
            FieldData::Ascii(text) => FieldContent::Ascii(text@),
            FieldData::Rational(list) => FieldContent::Rational(list@),
        }
    }
}

impl View for Entry {
    type V = EntryContent;

    open spec fn view(&self) -> EntryContent {
        EntryContent { image: self.image, group: self.group, tag: self.tag, data: self.data@ }
    }
}

/// What a list of entries holds, entry by entry.
pub open spec fn directory_content(entries: Seq<Entry>) -> Seq<EntryContent> {
    Seq::new(entries.len(), |i: int| entries[i]@)
}

/// The number of the primary image.
pub const PRIMARY_IMAGE: u16 = 0;

pub const TAG_GPS_VERSION_ID: u16 = 0x0000;

pub const TAG_GPS_LATITUDE_REF: u16 = 0x0001;

pub const TAG_GPS_LATITUDE: u16 = 0x0002;

pub const TAG_GPS_LONGITUDE_REF: u16 = 0x0003;

pub const TAG_GPS_LONGITUDE: u16 = 0x0004;

pub const TAG_GPS_ALTITUDE_REF: u16 = 0x0005;

pub const TAG_GPS_ALTITUDE: u16 = 0x0006;

pub const TAG_DATE_TIME: u16 = 0x0132;

pub const TAG_DATE_TIME_ORIGINAL: u16 = 0x9003;

pub const TAG_DATE_TIME_DIGITIZED: u16 = 0x9004;

/// The three rationals of an angle, in the order in which they are stored.
pub open spec fn dms_rationals(dms: Dms) -> Seq<Rational> {
    seq![dms.degrees, dms.minutes, dms.seconds]
}

pub open spec fn gps_entry(tag: u16, data: FieldContent) -> EntryContent {
    EntryContent { image: 0, group: IfdGroup::Gps, tag, data }
}

pub open spec fn date_entry(group: IfdGroup, tag: u16, text: Seq<u8>) -> EntryContent {
    EntryContent { image: 0, group, tag, data: FieldContent::Ascii(text) }
}

/// The directory that describes a position and a capture time: a GPS version
/// marker, the latitude, longitude and altitude each with its reference, and
/// the same date-time text under the three date-time tags.
pub open spec fn exif_directory(position: GeoPosition, date_time: Seq<u8>) -> Seq<EntryContent> {
    seq![
        gps_entry(0x0000, FieldContent::Byte(seq![2u8, 3u8, 0u8, 0u8])),
        gps_entry(0x0001, FieldContent::Ascii(seq![latitude_ref_of(position.latitude_e7 as int)])),
        gps_entry(
            0x0002,
            FieldContent::Rational(dms_rationals(dms_of(position.latitude_e7 as int))),
        ),
        gps_entry(
            0x0003,
            FieldContent::Ascii(seq![longitude_ref_of(position.longitude_e7 as int)]),
        ),
        gps_entry(
            0x0004,
            FieldContent::Rational(dms_rationals(dms_of(position.longitude_e7 as int))),
        ),
        gps_entry(0x0006, FieldContent::Rational(seq![altitude_of(position.altitude_mm as int)])),
        gps_entry(0x0005, FieldContent::Byte(seq![altitude_ref_of(position.altitude_mm as int)])),
        date_entry(IfdGroup::Tiff, 0x0132, date_time),
        date_entry(IfdGroup::Exif, 0x9003, date_time),
        date_entry(IfdGroup::Exif, 0x9004, date_time),
    ]
}

fn dms_list(dms: Dms) -> (list: Vec<Rational>)
    ensures
        list@ == dms_rationals(dms),
{
    let list: Vec<Rational> = vec![dms.degrees, dms.minutes, dms.seconds];
    assert(list@ =~= dms_rationals(dms));
    list
}

fn copy_bytes(bytes: &[u8]) -> (copy: Vec<u8>)
    ensures
        copy@ == bytes@,
{
    let mut copy: Vec<u8> = Vec::new();
    copy.extend_from_slice(bytes);
    assert(copy@ =~= bytes@);
    copy
}

/// Builds the directory for a position and a date-time text.
pub fn build_directory(position: &GeoPosition, date_time: &[u8]) -> (entries: Vec<Entry>)
    requires
        position.altitude_fits(),
    ensures
        directory_content(entries@) == exif_directory(*position, date_time@),
{
    let latitude: Vec<Rational> = dms_list(to_dms(position.latitude_e7));
    let longitude: Vec<Rational> = dms_list(to_dms(position.longitude_e7));
    let version: Vec<u8> = vec![2u8, 3u8, 0u8, 0u8];
    let latitude_letter: Vec<u8> = vec![latitude_ref(position.latitude_e7)];
    let longitude_letter: Vec<u8> = vec![longitude_ref(position.longitude_e7)];
    let altitude: Vec<Rational> = vec![altitude_rational(position.altitude_mm)];
    let altitude_byte: Vec<u8> = vec![altitude_ref(position.altitude_mm)];
    proof {
        assert(version@ =~= seq![2u8, 3u8, 0u8, 0u8]);
        assert(latitude_letter@ =~= seq![latitude_ref_of(position.latitude_e7 as int)]);
        assert(longitude_letter@ =~= seq![longitude_ref_of(position.longitude_e7 as int)]);
        assert(altitude@ =~= seq![altitude_of(position.altitude_mm as int)]);
        assert(altitude_byte@ =~= seq![altitude_ref_of(position.altitude_mm as int)]);
    }
    let entries: Vec<Entry> = vec![
        gps(TAG_GPS_VERSION_ID, FieldData::Byte(version)),
        gps(TAG_GPS_LATITUDE_REF, FieldData::Ascii(latitude_letter)),
        gps(TAG_GPS_LATITUDE, FieldData::Rational(latitude)),
        gps(TAG_GPS_LONGITUDE_REF, FieldData::Ascii(longitude_letter)),
        gps(TAG_GPS_LONGITUDE, FieldData::Rational(longitude)),
        gps(TAG_GPS_ALTITUDE, FieldData::Rational(altitude)),
        gps(TAG_GPS_ALTITUDE_REF, FieldData::Byte(altitude_byte)),
        date(IfdGroup::Tiff, TAG_DATE_TIME, date_time),
        date(IfdGroup::Exif, TAG_DATE_TIME_ORIGINAL, date_time),
        date(IfdGroup::Exif, TAG_DATE_TIME_DIGITIZED, date_time),
    ];
    assert(directory_content(entries@) =~= exif_directory(*position, date_time@));
    entries
}

fn gps(tag: u16, data: FieldData) -> (entry: Entry)
    ensures
        entry@ == gps_entry(tag, data@),
{
    Entry { image: PRIMARY_IMAGE, group: IfdGroup::Gps, tag, data }
}

fn date(group: IfdGroup, tag: u16, text: &[u8]) -> (entry: Entry)
    ensures
        entry@ == date_entry(group, tag, text@),
{
    Entry { image: PRIMARY_IMAGE, group, tag, data: FieldData::Ascii(copy_bytes(text)) }
}

/// The largest number of tags that the writer is handed: the count of a
/// directory has 16 bits.
pub const MAX_ENTRIES: usize = 0xFFFF;

/// The largest number of data bytes that the writer is handed, all tags
/// together. Besides the data a structure takes 8 bytes for its header and
/// fewer than 74 for each tag (its entry, a pointer and a directory frame for
/// each of the groups of its image, and padding), so that with at most
/// `MAX_ENTRIES` tags every offset in it stays below 2^32.
pub const MAX_DATA_BYTES: u64 = 0x7FFF_FFFF;

/// The number of bytes that a value takes in the structure: one for a byte,
/// one for each character of a text and one for the NUL behind it, eight for
/// a fraction.
pub open spec fn data_bytes(data: FieldContent) -> int {
    match data {
        FieldContent::Byte(bytes) => bytes.len() as int,
        FieldContent::Ascii(text) => text.len() as int + 1,
        FieldContent::Rational(list) => 8 * (list.len() as int),
    }
}

/// The number of bytes that the values of a directory take, all together.
pub open spec fn directory_bytes(entries: Seq<EntryContent>) -> int
    decreases entries.len(),
{
    if entries.len() == 0 {
        0
    } else {
        directory_bytes(entries.drop_last()) + data_bytes(entries.last().data)
    }
}

/// A directory that the writer can be handed: no more tags than
/// `MAX_ENTRIES` and no more data than `MAX_DATA_BYTES`.
pub open spec fn writable(entries: Seq<EntryContent>) -> bool {
    entries.len() <= 0xFFFF && directory_bytes(entries) <= 0x7FFF_FFFF
}

/// The eight bytes that open a big-endian TIFF structure: the byte-order
/// mark `MM`, the number 42, and the offset of the first directory, 8.
pub open spec fn tiff_header() -> Seq<u8> {
    seq![0x4Du8, 0x4Du8, 0x00u8, 0x2Au8, 0x00u8, 0x00u8, 0x00u8, 0x08u8]
}

/// The structure opens with the big-endian header.
pub open spec fn opens_with_tiff_header(tiff: Seq<u8>) -> bool {
    tiff.len() >= 8 && tiff.take(8) == tiff_header()
}

/// A tag in the form in which the EXIF writer takes it.
#[verifier::external_type_specification]
#[verifier::external_body]
pub struct ExField(::exif::Field);

/// The failure of the EXIF writer.
#[verifier::external_type_specification]
#[verifier::external_body]
pub struct ExExifError(::exif::Error);

/// What a tag of the EXIF writer holds.
pub uninterp spec fn field_content(field: ::exif::Field) -> EntryContent;

/// The TIFF structure that the EXIF writer makes of a list of tags, in the
/// byte order asked for; `None` where it refuses the list.
pub uninterp spec fn tiff_image(entries: Seq<EntryContent>, little_endian: bool) -> Option<Seq<u8>>;

/// The text that the calendar library makes of a moment given in seconds
/// since 1970-01-01T00:00:00 UTC, under a `strftime` pattern; `None` where the
/// moment lies outside the library's calendar or the pattern is not one.
pub uninterp spec fn utc_text(epoch_seconds: int, pattern: Seq<char>) -> Option<Seq<u8>>;

/// Builds an `exif::Field` from an entry: `exif::Tag` from the group and the
/// number, `exif::In` from the image number, and the `exif::Value` variant of
/// the same name from the data. The field holds what the entry holds.
#[verifier::external_body]
fn to_field(entry: &Entry) -> (field: ::exif::Field)
    ensures
        field_content(field) == entry@,
{
    let context = match entry.group {
        IfdGroup::Tiff => ::exif::Context::Tiff,
        IfdGroup::Exif => ::exif::Context::Exif,
        IfdGroup::Gps => ::exif::Context::Gps,
    };
    let value = match &entry.data {
        FieldData::Byte(bytes) => ::exif::Value::Byte(bytes.clone()),
        FieldData::Ascii(text) => ::exif::Value::Ascii(vec![text.clone()]),
        FieldData::Rational(list) => ::exif::Value::Rational(
            list.iter().map(|r| ::exif::Rational { num: r.numerator, denom: r.denominator }).collect(),
        ),
    };
    ::exif::Field { tag: ::exif::Tag(context, entry.tag), ifd_num: ::exif::In(entry.image), value }
}

/// Hands the fields, in their order, to `exif::experimental::Writer::push_field`
/// and has `Writer::write` encode them into memory. The bytes depend on
/// nothing but what the fields hold and the byte order. The fields are asked
/// to be few and small enough that no directory counts more than 65535 tags
/// and no offset reaches 2^32: the writer adds offsets without a test.
#[verifier::external_body]
fn write_fields(fields: &Vec<::exif::Field>, little_endian: bool) -> (written: Result<
    Vec<u8>,
    ::exif::Error,
>)
    requires
        writable(Seq::new(fields@.len(), |i: int| field_content(fields@[i]))),
    ensures
        tiff_image(Seq::new(fields@.len(), |i: int| field_content(fields@[i])), little_endian)
            == (match written {
            Ok(bytes) => Some(bytes@),
            Err(_) => None,
        }),
{
    let mut writer = ::exif::experimental::Writer::new();
    for field in fields.iter() {
        writer.push_field(field);
    }
    let mut sink = std::io::Cursor::new(Vec::new());
    writer.write(&mut sink, little_endian)?;
    Ok(sink.into_inner())
}

/// Has `chrono::DateTime::<Utc>::from_timestamp` make a moment of the seconds
/// and `DateTime::format` write it under the pattern. The text depends on
/// nothing but the seconds and the pattern.
#[verifier::external_body]
fn format_utc(epoch_seconds: i64, pattern: &str) -> (text: Option<Vec<u8>>)
    ensures
        utc_text(epoch_seconds as int, pattern@) == (match text {
            Some(bytes) => Some(bytes@),
            None => None,
        }),
{
    let moment = ::chrono::DateTime::<::chrono::Utc>::from_timestamp(epoch_seconds, 0)?;
    let mut text = String::new();
    write!(text, "{}", moment.format(pattern)).ok()?;
    Some(text.into_bytes())
}

/// The six bytes that open an EXIF block: `Exif` and two NULs.
pub open spec fn exif_signature() -> Seq<u8> {
    seq![0x45u8, 0x78u8, 0x69u8, 0x66u8, 0u8, 0u8]
}

/// The pattern under which EXIF writes a date and a time:
/// `YYYY:MM:DD HH:MM:SS`.
pub open spec fn date_time_pattern() -> Seq<char> {
    "%Y:%m:%d %H:%M:%S"@
}

/// A text of nineteen bytes in the shape `YYYY:MM:DD HH:MM:SS`: digits,
/// with colons in the date and in the time and one space between the two.
pub open spec fn is_date_time(text: Seq<u8>) -> bool {
    &&& text.len() == 19
    &&& forall|k: int|
        0 <= k < 19 ==> if k == 4 || k == 7 || k == 13 || k == 16 {
            #[trigger] text[k] == 0x3A
        } else if k == 10 {
            text[k] == 0x20
        } else {
            0x30 <= text[k] <= 0x39
        }
}

/// The big-endian TIFF structure for a directory, where there is one: the
/// directory must be one that the writer can be handed, the writer must take
/// it, and what the writer makes of it must open with the big-endian header.
pub open spec fn encoded_directory(entries: Seq<EntryContent>) -> Option<Seq<u8>> {
    if !writable(entries) {
        None
    } else {
        match tiff_image(entries, false) {
            None => None,
            Some(tiff) => if opens_with_tiff_header(tiff) {
                Some(tiff)
            } else {
                None
            },
        }
    }
}

/// The EXIF block for a position and a date-time text, where there is one:
/// the text must have the shape of a date and a time, and there must be a
/// TIFF structure for the directory.
pub open spec fn exif_block_with(position: GeoPosition, date_time: Seq<u8>) -> Option<Seq<u8>> {
    if !is_date_time(date_time) {
        None
    } else {
        match encoded_directory(exif_directory(position, date_time)) {
            None => None,
            Some(tiff) => Some(exif_signature() + tiff),
        }
    }
}

/// The EXIF block for a position and a capture time, where there is one.
pub open spec fn exif_block_of(position: GeoPosition, instant: CaptureInstant) -> Option<Seq<u8>> {
    match utc_text(instant.epoch_seconds as int, date_time_pattern()) {
        None => None,
        Some(date_time) => exif_block_with(position, date_time),
    }
}

/// What making a block comes to: the block where there is one, and
/// `EncodingError` where there is none.
pub open spec fn block_outcome(block: Option<Seq<u8>>) -> Result<Seq<u8>, EmbedError> {
    match block {
        Some(bytes) => Ok(bytes),
        None => Err(EmbedError::EncodingError),
    }
}

/// Tells whether a text has the shape `YYYY:MM:DD HH:MM:SS`.
pub fn has_date_time_shape(text: &[u8]) -> (shaped: bool)
    ensures
        shaped == is_date_time(text@),
{
    if text.len() != 19 {
        return false;
    }
    let mut k: usize = 0;
    while k < 19
        invariant
            k <= 19,
            text.len() == 19,
            forall|j: int|
                0 <= j < k ==> if j == 4 || j == 7 || j == 13 || j == 16 {
                    #[trigger] text@[j] == 0x3A
                } else if j == 10 {
                    text@[j] == 0x20
                } else {
                    0x30 <= text@[j] <= 0x39
                },
        decreases 19 - k,
    {
        let byte: u8 = text[k];
        let fits: bool = if k == 4 || k == 7 || k == 13 || k == 16 {
            byte == 0x3A
        } else if k == 10 {
            byte == 0x20
        } else {
            0x30 <= byte && byte <= 0x39
        };
        if !fits {
            return false;
        }
        k += 1;
    }
    true
}

/// The bytes of a prefix of a directory are no more than those of the whole.
proof fn lemma_bytes_of_prefix(entries: Seq<EntryContent>, n: int)
    requires
        0 <= n <= entries.len(),
    ensures
        0 <= directory_bytes(entries.take(n)) <= directory_bytes(entries),
    decreases entries.len(),
{
    if n == entries.len() {
        assert(entries.take(n) =~= entries);
        if entries.len() > 0 {
            lemma_bytes_of_prefix(entries.drop_last(), n - 1);
        }
    } else {
        lemma_bytes_of_prefix(entries.drop_last(), n);
        assert(entries.drop_last().take(n) =~= entries.take(n));
    }
}

/// Tells whether a directory is one that the writer can be handed.
pub fn is_writable(entries: &Vec<Entry>) -> (fits: bool)
    ensures
        fits == writable(directory_content(entries@)),
{
    if entries.len() > MAX_ENTRIES {
        return false;
    }
    let ghost all = directory_content(entries@);
    let mut total: u64 = 0;
    let mut i: usize = 0;
    while i < entries.len()
        invariant
            i <= entries.len(),
            entries.len() <= MAX_ENTRIES,
            all == directory_content(entries@),
            total == directory_bytes(all.take(i as int)),
            total <= MAX_DATA_BYTES,
        decreases entries.len() - i,
    {
        let size: u64 = match &entries[i].data {
            FieldData::Byte(bytes) => if bytes.len() > 0x7FFF_FFFF {
                0x8000_0000
            } else {
                bytes.len() as u64
            },
            FieldData::Ascii(text) => if text.len() >= 0x7FFF_FFFF {
                0x8000_0000
            } else {
                text.len() as u64 + 1
            },
            FieldData::Rational(list) => if list.len() > 0x0FFF_FFFF {
                0x8000_0000
            } else {
                8 * (list.len() as u64)
            },
        };
        proof {
            assert(all.take(i + 1).drop_last() =~= all.take(i as int));
            assert(all.take(i + 1).last() == entries@[i as int]@);
            lemma_bytes_of_prefix(all, i + 1);
            assert(size >= 0x8000_0000 ==> data_bytes(entries@[i as int]@.data) >= 0x8000_0000);
            assert(size < 0x8000_0000 ==> data_bytes(entries@[i as int]@.data) == size);
        }
        if size > MAX_DATA_BYTES - total {
            return false;
        }
        total = total + size;
        i += 1;
    }
    assert(all.take(i as int) =~= all);
    true
}

/// Tells whether a structure opens with the big-endian TIFF header.
pub fn has_tiff_header(tiff: &[u8]) -> (found: bool)
    ensures
        found == opens_with_tiff_header(tiff@),
{
    if tiff.len() < 8 {
        return false;
    }
    let found: bool = tiff[0] == 0x4D && tiff[1] == 0x4D && tiff[2] == 0x00 && tiff[3] == 0x2A
        && tiff[4] == 0x00 && tiff[5] == 0x00 && tiff[6] == 0x00 && tiff[7] == 0x08;
    proof {
        let opening = tiff@.take(8);
        if found {
            assert(opening =~= tiff_header());
        } else {
            assert(opening[0] == tiff@[0] && opening[1] == tiff@[1] && opening[2] == tiff@[2]
                && opening[3] == tiff@[3] && opening[4] == tiff@[4] && opening[5] == tiff@[5]
                && opening[6] == tiff@[6] && opening[7] == tiff@[7]);
        }
    }
    found
}

/// Encodes a directory as a big-endian TIFF structure.
///
/// Fails with `EncodingError` where the directory has more tags or more data
/// than the writer can be handed, where the writer refuses it, or where what
/// the writer makes of it does not open with the big-endian header, and
/// nowhere else.
pub fn encode_directory(entries: &Vec<Entry>) -> (encoded: Result<Vec<u8>, EmbedError>)
    ensures
        outcome_of(encoded) == block_outcome(encoded_directory(directory_content(entries@))),
{
    if !is_writable(entries) {
        return Err(EmbedError::EncodingError);
    }
    let mut fields: Vec<::exif::Field> = Vec::new();
    let mut i: usize = 0;
    while i < entries.len()
        invariant
            i <= entries.len(),
            fields@.len() == i,
            forall|j: int| 0 <= j < i ==> field_content(#[trigger] fields@[j]) == entries@[j]@,
        decreases entries.len() - i,
    {
        fields.push(to_field(&entries[i]));
        i += 1;
    }
    assert(Seq::new(fields@.len(), |j: int| field_content(fields@[j])) =~= directory_content(
        entries@,
    ));
    match write_fields(&fields, false) {
        Ok(bytes) => {
            if has_tiff_header(bytes.as_slice()) {
                Ok(bytes)
            } else {
                Err(EmbedError::EncodingError)
            }
        },
        Err(_) => Err(EmbedError::EncodingError),
    }
}

/// Puts the EXIF signature in front of a TIFF structure.
pub fn wrap_tiff(tiff: &[u8]) -> (block: Vec<u8>)
    ensures
        block@ == exif_signature() + tiff@,
{
    let mut block: Vec<u8> = vec![0x45u8, 0x78u8, 0x69u8, 0x66u8, 0u8, 0u8];
    block.extend_from_slice(tiff);
    assert(block@ =~= exif_signature() + tiff@);
    block
}

/// Builds the EXIF block for a position and a date-time text.
///
/// Fails with `EncodingError` where the text has not the shape
/// `YYYY:MM:DD HH:MM:SS` or the directory cannot be encoded, and nowhere
/// else.
pub fn exif_block_with_text(position: &GeoPosition, date_time: &[u8]) -> (block: Result<
    Vec<u8>,
    EmbedError,
>)
    requires
        position.altitude_fits(),
    ensures
        outcome_of(block) == block_outcome(exif_block_with(*position, date_time@)),
{
    if !has_date_time_shape(date_time) {
        return Err(EmbedError::EncodingError);
    }
    let entries: Vec<Entry> = build_directory(position, date_time);
    match encode_directory(&entries) {
        Ok(tiff) => Ok(wrap_tiff(tiff.as_slice())),
        Err(e) => Err(e),
    }
}

/// Builds the EXIF block for a position and a capture time.
///
/// Fails with `EncodingError` where the capture time lies outside the
/// calendar, its year has not four digits, or the directory cannot be
/// encoded, and nowhere else.
pub fn create_exif_data(position: &GeoPosition, instant: CaptureInstant) -> (block: Result<
    Vec<u8>,
    EmbedError,
>)
    requires
        position.altitude_fits(),
    ensures
        outcome_of(block) == block_outcome(exif_block_of(*position, instant)),
{
    match format_utc(instant.epoch_seconds, "%Y:%m:%d %H:%M:%S") {
        Some(date_time) => exif_block_with_text(position, date_time.as_slice()),
        None => Err(EmbedError::EncodingError),
    }
}

/// Whatever block is made, it opens with the signature; behind the
/// signature stands a structure that opens with the big-endian TIFF header,
/// the writer's structure for a directory of ten tags in which the three
/// date-time tags hold one and the same text of the shape
/// `YYYY:MM:DD HH:MM:SS`.
pub proof fn block_holds_signature_and_directory(
    position: GeoPosition,
    instant: CaptureInstant,
    block: Seq<u8>,
)
    requires
        exif_block_of(position, instant) == Some(block),
    ensures
        block.len() >= 14,
        block.take(6) == exif_signature(),
        block.subrange(6, 14) == tiff_header(),
        utc_text(instant.epoch_seconds as int, date_time_pattern()) matches Some(text)
            && is_date_time(text) && tiff_image(exif_directory(position, text), false) == Some(
            block.skip(6),
        ) && exif_directory(position, text).len() == 10 && exif_directory(position, text)[7].data
            == FieldContent::Ascii(text) && exif_directory(position, text)[8].data
            == FieldContent::Ascii(text) && exif_directory(position, text)[9].data
            == FieldContent::Ascii(text),
{
    let text = utc_text(instant.epoch_seconds as int, date_time_pattern())->Some_0;
    let tiff = tiff_image(exif_directory(position, text), false)->Some_0;
    assert(block == exif_signature() + tiff);
    assert(block.take(6) =~= exif_signature());
    assert(block.skip(6) =~= tiff);
    assert(block.subrange(6, 14) =~= tiff.take(8));
}

} // verus!
