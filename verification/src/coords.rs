//! Geographic coordinates as EXIF stores them: unsigned rationals for the
//! magnitude, and a reference letter or byte for the sign.

use vstd::prelude::*;

verus! {

/// An unsigned fraction. EXIF writes every GPS quantity as one or more of these.
#[derive(Clone, Copy, Debug, PartialEq, Eq, Structural)]
pub struct Rational {
    pub numerator: u32,
    pub denominator: u32,
}

impl Rational {
    /// A rational is usable when its denominator is not zero.
    pub open spec fn well_formed(self) -> bool {
        self.denominator != 0
    }
}

/// A point on the globe.
///
/// Angles are held in units of 1e-7 degree, positive to the north and to the
/// east; the altitude is held in millimetres, positive above sea level.
#[derive(Clone, Copy, Debug, PartialEq, Eq, Structural)]
pub struct GeoPosition {
    pub latitude_e7: i32,
    pub longitude_e7: i32,
    pub altitude_mm: i64,
}

impl GeoPosition {
    /// The angles lie on the globe: at most 90 degrees of latitude and 180 of
    /// longitude, either way.
    pub open spec fn in_range(self) -> bool {
        &&& -900_000_000 <= self.latitude_e7 <= 900_000_000
        &&& -1_800_000_000 <= self.longitude_e7 <= 1_800_000_000
    }

    /// The altitude can be written: see `altitude_fits`.
    pub open spec fn altitude_fits(self) -> bool {
        altitude_fits(self.altitude_mm as int)
    }

    /// Tells whether the altitude can be written.
    pub fn has_fitting_altitude(&self) -> (fits: bool)
        ensures
            fits == self.altitude_fits(),
    {
        -MAX_ALTITUDE_MM <= self.altitude_mm && self.altitude_mm <= MAX_ALTITUDE_MM
    }
}

/// An angle's magnitude split into whole degrees, whole minutes, and seconds
/// counted in millionths.
#[derive(Clone, Copy, Debug, PartialEq, Eq, Structural)]
pub struct Dms {
    pub degrees: Rational,
    pub minutes: Rational,
    pub seconds: Rational,
}

/// Micro-arcseconds in one unit of 1e-7 degree.
pub const MICRO_ARCSEC_PER_E7: u64 = 360;

/// Micro-arcseconds in one arcminute.
pub const MICRO_ARCSEC_PER_MINUTE: u64 = 60_000_000;

/// Micro-arcseconds in one degree.
pub const MICRO_ARCSEC_PER_DEGREE: u64 = 3_600_000_000;

/// The denominator under which seconds of arc are written.
pub const SECONDS_DENOMINATOR: u32 = 1_000_000;

/// The denominator under which an altitude in metres is written.
pub const ALTITUDE_DENOMINATOR: u32 = 1_000;

/// The largest magnitude of an altitude that can be written, in millimetres:
/// the numerator of a rational has 32 bits.
pub const MAX_ALTITUDE_MM: i64 = 0xFFFF_FFFF;

pub open spec fn magnitude(x: int) -> int {
    if x < 0 {
        -x
    } else {
        x
    }
}

/// The size of an angle in micro-arcseconds, whatever its sign.
pub open spec fn micro_arcseconds(angle_e7: int) -> int {
    magnitude(angle_e7) * 360
}

/// Degrees, minutes and seconds of an angle given in units of 1e-7 degree.
pub open spec fn dms_of(angle_e7: int) -> Dms {
    let t = micro_arcseconds(angle_e7);
    Dms {
        degrees: Rational { numerator: (t / 3_600_000_000) as u32, denominator: 1 },
        minutes: Rational { numerator: ((t / 60_000_000) % 60) as u32, denominator: 1 },
        seconds: Rational { numerator: (t % 60_000_000) as u32, denominator: 1_000_000 },
    }
}

/// `N` for the equator and all that lies north of it, `S` for the south.
pub open spec fn latitude_ref_of(latitude_e7: int) -> u8 {
    if latitude_e7 >= 0 {
        0x4E
    } else {
        0x53
    }
}

/// `E` for the prime meridian and all that lies east of it, `W` for the west.
pub open spec fn longitude_ref_of(longitude_e7: int) -> u8 {
    if longitude_e7 >= 0 {
        0x45
    } else {
        0x57
    }
}

/// An altitude can be written where its magnitude in millimetres fits the
/// 32 bits of a numerator: up to 4294967.295 metres either way.
pub open spec fn altitude_fits(altitude_mm: int) -> bool {
    -0xFFFF_FFFF <= altitude_mm <= 0xFFFF_FFFF
}

/// Metres above or below sea level, to the millimetre.
pub open spec fn altitude_of(altitude_mm: int) -> Rational {
    Rational { numerator: magnitude(altitude_mm) as u32, denominator: 1_000 }
}

/// 0 at sea level and above, 1 below.
pub open spec fn altitude_ref_of(altitude_mm: int) -> u8 {
    if altitude_mm >= 0 {
        0
    } else {
        1
    }
}

/// Splits an angle into degrees, minutes and seconds of its magnitude.
pub fn to_dms(angle_e7: i32) -> (dms: Dms)
    ensures
        dms == dms_of(angle_e7 as int),
        dms.degrees.well_formed(),
        dms.minutes.well_formed(),
        dms.seconds.well_formed(),
{
    let wide: i64 = angle_e7 as i64;
    let size: u64 = if wide < 0 {
        (-wide) as u64
    } else {
        wide as u64
    };
    let t: u64 = size * MICRO_ARCSEC_PER_E7;
    let degrees: u64 = t / MICRO_ARCSEC_PER_DEGREE;
    let minutes: u64 = (t / MICRO_ARCSEC_PER_MINUTE) % 60;
    let seconds: u64 = t % MICRO_ARCSEC_PER_MINUTE;
    Dms {
        degrees: Rational { numerator: degrees as u32, denominator: 1 },
        minutes: Rational { numerator: minutes as u32, denominator: 1 },
        seconds: Rational { numerator: seconds as u32, denominator: SECONDS_DENOMINATOR },
    }
}

/// The reference letter that goes with a latitude.
pub fn latitude_ref(latitude_e7: i32) -> (letter: u8)
    ensures
        letter == latitude_ref_of(latitude_e7 as int),
{
    if latitude_e7 >= 0 {
        0x4E
    } else {
        0x53
    }
}

/// The reference letter that goes with a longitude.
pub fn longitude_ref(longitude_e7: i32) -> (letter: u8)
    ensures
        letter == longitude_ref_of(longitude_e7 as int),
{
    if longitude_e7 >= 0 {
        0x45
    } else {
        0x57
    }
}

/// The magnitude of an altitude, in metres with three decimals.
pub fn altitude_rational(altitude_mm: i64) -> (r: Rational)
    requires
        altitude_fits(altitude_mm as int),
    ensures
        r == altitude_of(altitude_mm as int),
        r.numerator == magnitude(altitude_mm as int),
        r.well_formed(),
{
    let size: i64 = if altitude_mm < 0 {
        -altitude_mm
    } else {
        altitude_mm
    };
    Rational { numerator: size as u32, denominator: ALTITUDE_DENOMINATOR }
}

/// The reference byte that goes with an altitude.
pub fn altitude_ref(altitude_mm: i64) -> (byte: u8)
    ensures
        byte == altitude_ref_of(altitude_mm as int),
{
    if altitude_mm >= 0 {
        0
    } else {
        1
    }
}

/// The size of a stored angle in micro-arcseconds, as a reader computes it
/// from the three rationals.
pub open spec fn dms_micro_arcseconds(dms: Dms) -> int {
    dms.degrees.numerator * 3_600_000_000 / (dms.degrees.denominator as int)
        + dms.minutes.numerator * 60_000_000 / (dms.minutes.denominator as int)
        + dms.seconds.numerator * 1_000_000 / (dms.seconds.denominator as int)
}

/// The angle that a reader recovers from a stored latitude, in
/// micro-arcseconds, positive to the north.
pub open spec fn latitude_read_back(letter: u8, dms: Dms) -> int {
    if letter == 0x53 {
        -dms_micro_arcseconds(dms)
    } else {
        dms_micro_arcseconds(dms)
    }
}

/// The angle that a reader recovers from a stored longitude, in
/// micro-arcseconds, positive to the east.
pub open spec fn longitude_read_back(letter: u8, dms: Dms) -> int {
    if letter == 0x57 {
        -dms_micro_arcseconds(dms)
    } else {
        dms_micro_arcseconds(dms)
    }
}

/// The altitude that a reader recovers from a stored rational and its
/// reference byte, in millimetres, positive above sea level.
pub open spec fn altitude_read_back(byte: u8, r: Rational) -> int {
    let size = r.numerator * 1_000 / (r.denominator as int);
    if byte == 1 {
        -size
    } else {
        size
    }
}

/// Degrees, minutes and seconds of any angle are proper: fewer than sixty
/// minutes, fewer than sixty seconds, and together exactly the magnitude
/// of the angle.
pub proof fn dms_is_exact(angle_e7: i32)
    ensures
        dms_of(angle_e7 as int).minutes.numerator < 60,
        dms_of(angle_e7 as int).seconds.numerator < 60_000_000,
        dms_micro_arcseconds(dms_of(angle_e7 as int)) == micro_arcseconds(angle_e7 as int),
{
    let t = micro_arcseconds(angle_e7 as int);
    assert(0 <= t <= 2_147_483_648 * 360);
    let d = t / 3_600_000_000;
    let m = (t / 60_000_000) % 60;
    let s = t % 60_000_000;
    assert(d * 3_600_000_000 + m * 60_000_000 + s == t);
}

/// An angle on the globe has at most 90 whole degrees of latitude and 180 of
/// longitude.
pub proof fn dms_degrees_on_globe(position: GeoPosition)
    requires
        position.in_range(),
    ensures
        dms_of(position.latitude_e7 as int).degrees.numerator <= 90,
        dms_of(position.longitude_e7 as int).degrees.numerator <= 180,
{
}

/// Whatever position is stored, a reader recovers it without any loss: the
/// latitude and the longitude to the last unit of 1e-7 degree (360
/// micro-arcseconds each), the altitude to the millimetre.
pub proof fn position_round_trip(position: GeoPosition)
    requires
        position.altitude_fits(),
    ensures
        latitude_read_back(
            latitude_ref_of(position.latitude_e7 as int),
            dms_of(position.latitude_e7 as int),
        ) == position.latitude_e7 * 360,
        longitude_read_back(
            longitude_ref_of(position.longitude_e7 as int),
            dms_of(position.longitude_e7 as int),
        ) == position.longitude_e7 * 360,
        altitude_read_back(
            altitude_ref_of(position.altitude_mm as int),
            altitude_of(position.altitude_mm as int),
        ) == position.altitude_mm,
{
    dms_is_exact(position.latitude_e7);
    dms_is_exact(position.longitude_e7);
}

} // verus!
