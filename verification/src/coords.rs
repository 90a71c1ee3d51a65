//! Structures that describe coordinates that may be parsed from NMEA
//! sentences.

use crate::common::{
    all_digits, digits_value, parse_decimal, parse_digits, spec_parse_number, token_view,
};
use crate::decimal::{
    lemma_pow10_add, lemma_pow10_monotonic, lemma_pow10_positive, lemma_pow10_values, pow10,
    ten_to, Decimal, COMPACT_LIMIT, MAX_SCALE,
};
use crate::error::ErrorKind;
use crate::fields::is_byte;
use crate::modes::{LETTER_E, LETTER_N, LETTER_S, LETTER_W};
use vstd::prelude::*;
use vstd::slice::slice_subrange;

verus! {

/// Earth hemisphere.
#[derive(Debug, Clone, Copy, PartialEq, Eq, Structural)]
pub enum Hemisphere {
    /// North
    North,
    /// South
    South,
    /// East
    East,
    /// West
    West,
}

/// An angle as whole degrees, whole minutes, and seconds with their
/// fraction.
#[derive(Debug, Clone, Copy, PartialEq, Eq, Structural)]
pub struct Dms {
    /// Whole degrees.
    pub degrees: u8,
    /// Whole minutes.
    pub minutes: u8,
    /// Seconds.
    pub seconds: Decimal,
}

/// The error of a constructor that was given an angle outside the open
/// range of its coordinate.
#[derive(Debug, Clone, Copy, PartialEq, Eq, Structural)]
pub struct CoordinateOutOfRange;

/// The whole minutes of a minutes field, which an 8-bit count holds: 255
/// stands for every larger number too.
pub open spec fn whole_minutes(m: Decimal) -> int {
    if m.spec_whole() > 255 {
        255
    } else {
        m.spec_whole()
    }
}

/// What a minutes field leaves once its whole minutes are taken out, in
/// seconds.
pub open spec fn seconds_of(m: Decimal) -> Decimal {
    Decimal {
        mantissa: ((m.mantissa - whole_minutes(m) * pow10(m.scale as nat)) * 60) as i128,
        scale: m.scale,
    }
}

/// What coordinate text reads as: `width` digits of degrees, then minutes
/// as an unsigned decimal.
pub open spec fn spec_parse_dms(c: Seq<u8>, width: int) -> Option<Dms> {
    if c.len() >= width + 2 && all_digits(c.subrange(0, width)) && digits_value(
        c.subrange(0, width),
    ) <= 255 && Decimal::spec_parse_unsigned(c.skip(width)) is Some {
        let m = Decimal::spec_parse_unsigned(c.skip(width))->0;
        Some(
            Dms {
                degrees: digits_value(c.subrange(0, width)) as u8,
                minutes: whole_minutes(m) as u8,
                seconds: seconds_of(m),
            },
        )
    } else {
        None
    }
}

/// Whether seconds have a size that the conversions of this module take:
/// not negative, at most 18 fractional digits, a mantissa below 60 * 10^18.
pub open spec fn seconds_in_reach(seconds: Decimal) -> bool {
    seconds.scale <= MAX_SCALE && 0 <= seconds.mantissa < 60 * COMPACT_LIMIT
}

fn split_minutes(m: Decimal) -> (r: (u8, Decimal))
    requires
        m.is_compact(),
        m.mantissa >= 0,
    ensures
        r.0 == whole_minutes(m),
        r.1 == seconds_of(m),
        seconds_in_reach(r.1),
{
    let unit: i128 = ten_to(m.scale);
    let (whole, fraction) = m.split();
    proof {
        lemma_pow10_values();
        lemma_pow10_monotonic(m.scale as nat, 18);
    }
    if whole > 255 {
        assert(255 * unit <= 255 * COMPACT_LIMIT) by (nonlinear_arith)
            requires
                unit <= COMPACT_LIMIT,
        ;
        assert(255 * unit <= whole * unit) by (nonlinear_arith)
            requires
                255 < whole,
                unit >= 1,
        ;
        let rest: i128 = m.mantissa - 255 * unit;
        (255, Decimal { mantissa: rest * 60, scale: m.scale })
    } else {
        (whole as u8, Decimal { mantissa: fraction * 60, scale: m.scale })
    }
}

fn parse_dms(c: &[u8], width: usize) -> (r: Option<Dms>)
    requires
        width == 2 || width == 3,
    ensures
        r == spec_parse_dms(c@, width as int),
        r matches Some(dms) ==> seconds_in_reach(dms.seconds),
{
    let n: usize = c.len();
    if n < width + 2 {
        return None;
    }
    let head = slice_subrange(c, 0, width);
    let degrees: u8 = match parse_digits(head, 255) {
        Some(v) => v as u8,
        None => {
            return None;
        },
    };
    let tail = slice_subrange(c, width, n);
    assert(tail@ =~= c@.skip(width as int));
    let m = match Decimal::parse_unsigned(tail) {
        Some(d) => d,
        None => {
            return None;
        },
    };
    let (minutes, seconds) = split_minutes(m);
    Some(Dms { degrees, minutes, seconds })
}

/// The magnitude of `value`.
pub open spec fn magnitude(value: Decimal) -> Decimal {
    Decimal {
        mantissa: if value.mantissa < 0 {
            (-value.mantissa) as i128
        } else {
            value.mantissa
        },
        scale: value.scale,
    }
}

/// An angle of decimal degrees that is not negative, as degrees, minutes
/// and seconds. Nothing is rounded: the seconds keep the scale of `a`.
pub open spec fn degrees_to_dms(a: Decimal) -> Dms {
    let min_sec = Decimal { mantissa: (a.spec_fraction() * 60) as i128, scale: a.scale };
    Dms {
        degrees: a.spec_whole() as u8,
        minutes: min_sec.spec_whole() as u8,
        seconds: Decimal { mantissa: (min_sec.spec_fraction() * 60) as i128, scale: a.scale },
    }
}

/// The angle in seconds, counted in units of ten to the minus the scale of
/// its seconds.
pub open spec fn total_seconds(degrees: u8, minutes: u8, seconds: Decimal) -> int {
    (degrees * 3600 + minutes * 60) * pow10(seconds.scale as nat) + seconds.mantissa
}

/// The angle in decimal degrees, cut off after four digits more than its
/// seconds have, with a minus sign if `negative`.
pub open spec fn dms_to_degrees(degrees: u8, minutes: u8, seconds: Decimal, negative: bool) -> Decimal {
    let cut = total_seconds(degrees, minutes, seconds) * 25 / 9;
    Decimal {
        mantissa: if negative {
            (-cut) as i128
        } else {
            cut as i128
        },
        scale: (seconds.scale + 4) as u8,
    }
}

fn degrees_to_dms_exec(a: Decimal) -> (r: Dms)
    requires
        a.is_compact(),
        a.mantissa >= 0,
        a.spec_lt_int(180),
    ensures
        r == degrees_to_dms(a),
        r.degrees < 180,
        r.minutes < 60,
        seconds_in_reach(r.seconds),
        r.seconds.spec_lt_int(60),
        r.degrees * pow10(a.scale as nat) <= a.mantissa,
{
    proof {
        lemma_degrees_to_dms(a);
        lemma_pow10_values();
        lemma_pow10_monotonic(a.scale as nat, 18);
    }
    let (whole, fraction) = a.split();
    let min_sec = Decimal { mantissa: fraction * 60, scale: a.scale };
    let (minutes, rest) = min_sec.split();
    Dms {
        degrees: whole as u8,
        minutes: minutes as u8,
        seconds: Decimal { mantissa: rest * 60, scale: a.scale },
    }
}

fn dms_to_degrees_exec(degrees: u8, minutes: u8, seconds: Decimal, negative: bool) -> (r: Decimal)
    requires
        seconds_in_reach(seconds),
    ensures
        r == dms_to_degrees(degrees, minutes, seconds, negative),
{
    let unit: i128 = ten_to(seconds.scale);
    proof {
        lemma_pow10_values();
        lemma_pow10_monotonic(seconds.scale as nat, 18);
    }
    let whole: i128 = degrees as i128 * 3600 + minutes as i128 * 60;
    assert(0 <= whole * unit <= 933_300 * COMPACT_LIMIT) by (nonlinear_arith)
        requires
            0 <= whole <= 933_300,
            1 <= unit <= COMPACT_LIMIT,
    ;
    let total: i128 = whole * unit + seconds.mantissa;
    let cut: i128 = total * 25 / 9;
    Decimal {
        mantissa: if negative {
            -cut
        } else {
            cut
        },
        scale: seconds.scale + 4,
    }
}

fn magnitude_exec(value: Decimal) -> (r: Decimal)
    requires
        value.is_compact(),
    ensures
        r == magnitude(value),
        r.is_compact(),
        r.mantissa >= 0,
{
    Decimal {
        mantissa: if value.mantissa < 0 {
            -value.mantissa
        } else {
            value.mantissa
        },
        scale: value.scale,
    }
}

/// Latitude as reported by receiver.
#[derive(Debug, Clone, Copy, PartialEq, Eq, Structural)]
pub struct Latitude {
    /// Degrees
    pub degrees: u8,
    /// Minutes
    pub minutes: u8,
    /// Seconds. Precision depends on receiver.
    pub seconds: Decimal,
    /// Earth hemisphere. North or south.
    pub hemisphere: Hemisphere,
}

impl Latitude {
    /// Whether the hemisphere is north or south, and the seconds have a
    /// size that `as_f64` takes.
    pub open spec fn wf(self) -> bool {
        &&& self.hemisphere == Hemisphere::North || self.hemisphere == Hemisphere::South
        &&& seconds_in_reach(self.seconds)
    }

    /// The hemisphere that a latitude's hemisphere token names.
    pub open spec fn hemisphere_of(h: Seq<u8>) -> Option<Hemisphere> {
        if h == seq![LETTER_N] {
            Some(Hemisphere::North)
        } else if h == seq![LETTER_S] {
            Some(Hemisphere::South)
        } else {
            None
        }
    }

    /// What `parse` returns.
    pub open spec fn spec_parse(coord: Option<Seq<u8>>, hemi: Option<Seq<u8>>) -> Result<
        Option<Latitude>,
        ErrorKind,
    > {
        match (coord, hemi) {
            (None, None) => Ok(None),
            (Some(c), Some(h)) => if c.len() == 0 && h.len() == 0 {
                Ok(None)
            } else {
                match (spec_parse_dms(c, 2), Latitude::hemisphere_of(h)) {
                    (Some(dms), Some(hemisphere)) => Ok(
                        Some(
                            Latitude {
                                degrees: dms.degrees,
                                minutes: dms.minutes,
                                seconds: dms.seconds,
                                hemisphere,
                            },
                        ),
                    ),
                    _ => Err(ErrorKind::FieldFormatError),
                }
            },
            _ => Err(ErrorKind::InconsistentCoordinateFields),
        }
    }

    /// What `try_from` returns.
    pub open spec fn spec_try_from(value: Decimal) -> Result<Latitude, CoordinateOutOfRange> {
        if magnitude(value).spec_lt_int(90) {
            let dms = degrees_to_dms(magnitude(value));
            Ok(
                Latitude {
                    degrees: dms.degrees,
                    minutes: dms.minutes,
                    seconds: dms.seconds,
                    hemisphere: if value.mantissa >= 0 {
                        Hemisphere::North
                    } else {
                        Hemisphere::South
                    },
                },
            )
        } else {
            Err(CoordinateOutOfRange)
        }
    }

    /// What `as_f64` returns.
    pub open spec fn spec_as_f64(self) -> Decimal {
        dms_to_degrees(
            self.degrees,
            self.minutes,
            self.seconds,
            self.hemisphere == Hemisphere::South,
        )
    }

    /// Decodes a latitude from its coordinate token, written `ddmm.mmmm`,
    /// and its hemisphere token.
    ///
    /// Both tokens missing, or both empty, is no latitude. One missing while
    /// the other was transmitted is `InconsistentCoordinateFields`. Otherwise
    /// the coordinate must be two digits of degrees and then minutes as an
    /// unsigned decimal, four bytes at least, and the hemisphere `N` or `S`;
    /// anything else is a format error. The seconds are the fraction of the
    /// minutes times sixty, exactly.
    pub fn parse(coord: Option<&[u8]>, hemi: Option<&[u8]>) -> (r: Result<
        Option<Latitude>,
        ErrorKind,
    >)
        ensures
            r == Latitude::spec_parse(token_view(coord), token_view(hemi)),
            r matches Ok(Some(lat)) ==> lat.wf(),
    {
        match (coord, hemi) {
            (None, None) => Ok(None),
            (Some(c), Some(h)) => {
                if c.len() == 0 && h.len() == 0 {
                    return Ok(None);
                }
                let hemisphere = if is_byte(h, LETTER_N) {
                    Hemisphere::North
                } else if is_byte(h, LETTER_S) {
                    Hemisphere::South
                } else {
                    return Err(ErrorKind::FieldFormatError);
                };
                match parse_dms(c, 2) {
                    Some(dms) => Ok(
                        Some(
                            Latitude {
                                degrees: dms.degrees,
                                minutes: dms.minutes,
                                seconds: dms.seconds,
                                hemisphere,
                            },
                        ),
                    ),
                    None => Err(ErrorKind::FieldFormatError),
                }
            },
            _ => Err(ErrorKind::InconsistentCoordinateFields),
        }
    }

    /// The latitude of an angle in decimal degrees, negative for south.
    ///
    /// Fails exactly when the angle is 90 degrees or more in magnitude.
    /// Nothing is rounded.
    pub fn try_from(value: Decimal) -> (r: Result<Latitude, CoordinateOutOfRange>)
        requires
            value.is_compact(),
        ensures
            r == Latitude::spec_try_from(value),
            r matches Ok(lat) ==> lat.wf() && lat.degrees < 90 && lat.minutes < 60
                && lat.seconds.spec_lt_int(60),
    {
        let a = magnitude_exec(value);
        if !a.lt_int(90) {
            return Err(CoordinateOutOfRange);
        }
        proof {
            lemma_pow10_positive(a.scale as nat);
        }
        assert(a.spec_lt_int(180)) by (nonlinear_arith)
            requires
                a.spec_lt_int(90),
                pow10(a.scale as nat) >= 1,
        ;
        let dms = degrees_to_dms_exec(a);
        proof {
            let unit = pow10(a.scale as nat);
            assert(dms.degrees < 90) by (nonlinear_arith)
                requires
                    dms.degrees * unit <= a.mantissa,
                    a.mantissa < 90 * unit,
                    unit >= 1,
            ;
        }
        Ok(
            Latitude {
                degrees: dms.degrees,
                minutes: dms.minutes,
                seconds: dms.seconds,
                hemisphere: if value.mantissa >= 0 {
                    Hemisphere::North
                } else {
                    Hemisphere::South
                },
            },
        )
    }

    /// The latitude in decimal degrees, negative for the south hemisphere
    /// and positive for the north.
    ///
    /// The result has four fractional digits more than the seconds, and is
    /// cut off, not rounded, after the last of them.
    pub fn as_f64(&self) -> (r: Decimal)
        requires
            self.wf(),
        ensures
            r == self.spec_as_f64(),
    {
        dms_to_degrees_exec(
            self.degrees,
            self.minutes,
            self.seconds,
            matches!(self.hemisphere, Hemisphere::South),
        )
    }

    /// Is north hemisphere
    pub fn is_north(&self) -> (r: bool)
        ensures
            r == (self.hemisphere == Hemisphere::North),
    {
        matches!(self.hemisphere, Hemisphere::North)
    }

    /// Is south hemisphere
    pub fn is_south(&self) -> (r: bool)
        ensures
            r == (self.hemisphere == Hemisphere::South),
    {
        matches!(self.hemisphere, Hemisphere::South)
    }
}

/// What `degrees_to_dms` yields for an angle below 180 degrees: whole
/// degrees, minutes below 60, seconds below 60, and together exactly the
/// angle.
pub proof fn lemma_degrees_to_dms(a: Decimal)
    requires
        a.is_compact(),
        a.mantissa >= 0,
        a.spec_lt_int(180),
    ensures
        degrees_to_dms(a).degrees < 180,
        degrees_to_dms(a).degrees * pow10(a.scale as nat) <= a.mantissa,
        degrees_to_dms(a).minutes < 60,
        seconds_in_reach(degrees_to_dms(a).seconds),
        degrees_to_dms(a).seconds.spec_lt_int(60),
        total_seconds(
            degrees_to_dms(a).degrees,
            degrees_to_dms(a).minutes,
            degrees_to_dms(a).seconds,
        ) == 3600 * a.mantissa,
{
    let unit = pow10(a.scale as nat);
    lemma_pow10_values();
    lemma_pow10_monotonic(a.scale as nat, 18);
    lemma_pow10_positive(a.scale as nat);
    let m = a.mantissa as int;
    let whole = m / unit;
    let fraction = m % unit;
    vstd::arithmetic::div_mod::lemma_fundamental_div_mod(m, unit);
    vstd::arithmetic::div_mod::lemma_mod_pos_bound(m, unit);
    vstd::arithmetic::div_mod::lemma_div_pos_is_pos(m, unit);
    assert(whole < 180 && whole * unit <= m) by (nonlinear_arith)
        requires
            m == unit * whole + fraction,
            m < 180 * unit,
            fraction >= 0,
            unit >= 1,
            whole >= 0,
    ;
    let ms = fraction * 60;
    let min_sec = Decimal { mantissa: ms as i128, scale: a.scale };
    assert(min_sec.mantissa == ms);
    let minutes = ms / unit;
    let rest = ms % unit;
    vstd::arithmetic::div_mod::lemma_fundamental_div_mod(ms, unit);
    vstd::arithmetic::div_mod::lemma_mod_pos_bound(ms, unit);
    vstd::arithmetic::div_mod::lemma_div_pos_is_pos(ms, unit);
    assert(minutes < 60) by (nonlinear_arith)
        requires
            ms == unit * minutes + rest,
            ms < 60 * unit,
            rest >= 0,
            unit >= 1,
            minutes >= 0,
    ;
    assert((whole * 3600 + minutes * 60) * unit + rest * 60 == 3600 * m) by (nonlinear_arith)
        requires
            m == unit * whole + fraction,
            fraction * 60 == unit * minutes + rest,
    ;
}

/// An angle that went into degrees, minutes and seconds comes back out of
/// `dms_to_degrees` as the same number, with four fractional digits more.
pub proof fn lemma_dms_round_trip(a: Decimal, negative: bool)
    requires
        a.is_compact(),
        a.mantissa >= 0,
        a.spec_lt_int(180),
    ensures
        ({
            let dms = degrees_to_dms(a);
            let back = dms_to_degrees(dms.degrees, dms.minutes, dms.seconds, negative);
            &&& back.scale == a.scale + 4
            &&& back.mantissa == if negative {
                -a.mantissa * 10_000
            } else {
                a.mantissa * 10_000
            }
            &&& back.same_value(
                Decimal {
                    mantissa: if negative {
                        (-a.mantissa) as i128
                    } else {
                        a.mantissa
                    },
                    scale: a.scale,
                },
            )
        }),
{
    lemma_degrees_to_dms(a);
    lemma_pow10_values();
    lemma_pow10_add(a.scale as nat, 4);
    let unit = pow10(a.scale as nat);
    let m = a.mantissa as int;
    assert((m * 10_000) * unit == m * (unit * 10_000)) by (nonlinear_arith);
    assert((-m * 10_000) * unit == (-m) * (unit * 10_000)) by (nonlinear_arith);
}

/// A latitude made from decimal degrees gives the same number back.
///
/// For every angle of less than 90 degrees in magnitude, `try_from`
/// succeeds, and `as_f64` of its result denotes the angle again: nothing is
/// lost on the way, whatever the precision of the seconds.
pub proof fn lemma_latitude_round_trip(value: Decimal)
    requires
        value.is_compact(),
        magnitude(value).spec_lt_int(90),
    ensures
        Latitude::spec_try_from(value) is Ok,
        Latitude::spec_try_from(value)->Ok_0.wf(),
        Latitude::spec_try_from(value)->Ok_0.spec_as_f64().same_value(value),
{
    let a = magnitude(value);
    lemma_pow10_positive(a.scale as nat);
    assert(a.spec_lt_int(180)) by (nonlinear_arith)
        requires
            a.spec_lt_int(90),
            pow10(a.scale as nat) >= 1,
    ;
    lemma_degrees_to_dms(a);
    lemma_dms_round_trip(a, value.mantissa < 0);
}

/// Longitude as reported by receiver.
#[derive(Debug, Clone, Copy, PartialEq, Eq, Structural)]
pub struct Longitude {
    /// Degrees
    pub degrees: u8,
    /// Minutes
    pub minutes: u8,
    /// Seconds. Precision depends on receiver.
    pub seconds: Decimal,
    /// Earth hemisphere. East or west.
    pub hemisphere: Hemisphere,
}

impl Longitude {
    /// Whether the hemisphere is east or west, and the seconds have a size
    /// that `as_f64` takes.
    pub open spec fn wf(self) -> bool {
        &&& self.hemisphere == Hemisphere::East || self.hemisphere == Hemisphere::West
        &&& seconds_in_reach(self.seconds)
    }

    /// The hemisphere that a longitude's hemisphere token names.
    pub open spec fn hemisphere_of(h: Seq<u8>) -> Option<Hemisphere> {
        if h == seq![LETTER_E] {
            Some(Hemisphere::East)
        } else if h == seq![LETTER_W] {
            Some(Hemisphere::West)
        } else {
            None
        }
    }

    /// What `parse` returns.
    pub open spec fn spec_parse(coord: Option<Seq<u8>>, hemi: Option<Seq<u8>>) -> Result<
        Option<Longitude>,
        ErrorKind,
    > {
        match (coord, hemi) {
            (None, None) => Ok(None),
            (Some(c), Some(h)) => if c.len() == 0 && h.len() == 0 {
                Ok(None)
            } else {
                match (spec_parse_dms(c, 3), Longitude::hemisphere_of(h)) {
                    (Some(dms), Some(hemisphere)) => Ok(
                        Some(
                            Longitude {
                                degrees: dms.degrees,
                                minutes: dms.minutes,
                                seconds: dms.seconds,
                                hemisphere,
                            },
                        ),
                    ),
                    _ => Err(ErrorKind::FieldFormatError),
                }
            },
            _ => Err(ErrorKind::InconsistentCoordinateFields),
        }
    }

    /// What `try_from` returns.
    pub open spec fn spec_try_from(value: Decimal) -> Result<Longitude, CoordinateOutOfRange> {
        if magnitude(value).spec_lt_int(180) {
            let dms = degrees_to_dms(magnitude(value));
            Ok(
                Longitude {
                    degrees: dms.degrees,
                    minutes: dms.minutes,
                    seconds: dms.seconds,
                    hemisphere: if value.mantissa >= 0 {
                        Hemisphere::East
                    } else {
                        Hemisphere::West
                    },
                },
            )
        } else {
            Err(CoordinateOutOfRange)
        }
    }

    /// What `as_f64` returns.
    pub open spec fn spec_as_f64(self) -> Decimal {
        dms_to_degrees(
            self.degrees,
            self.minutes,
            self.seconds,
            self.hemisphere == Hemisphere::West,
        )
    }

    /// Decodes a longitude from its coordinate token, written `dddmm.mmmm`,
    /// and its hemisphere token.
    ///
    /// Both tokens missing, or both empty, is no longitude. One missing
    /// while the other was transmitted is `InconsistentCoordinateFields`.
    /// Otherwise the coordinate must be three digits of degrees, not above
    /// 255, and then minutes as an unsigned decimal, five bytes at least, and
    /// the hemisphere `E` or `W`; anything else is a format error. The
    /// seconds are the fraction of the minutes times sixty, exactly.
    pub fn parse(coord: Option<&[u8]>, hemi: Option<&[u8]>) -> (r: Result<
        Option<Longitude>,
        ErrorKind,
    >)
        ensures
            r == Longitude::spec_parse(token_view(coord), token_view(hemi)),
            r matches Ok(Some(lon)) ==> lon.wf(),
    {
        match (coord, hemi) {
            (None, None) => Ok(None),
            (Some(c), Some(h)) => {
                if c.len() == 0 && h.len() == 0 {
                    return Ok(None);
                }
                let hemisphere = if is_byte(h, LETTER_E) {
                    Hemisphere::East
                } else if is_byte(h, LETTER_W) {
                    Hemisphere::West
                } else {
                    return Err(ErrorKind::FieldFormatError);
                };
                match parse_dms(c, 3) {
                    Some(dms) => Ok(
                        Some(
                            Longitude {
                                degrees: dms.degrees,
                                minutes: dms.minutes,
                                seconds: dms.seconds,
                                hemisphere,
                            },
                        ),
                    ),
                    None => Err(ErrorKind::FieldFormatError),
                }
            },
            _ => Err(ErrorKind::InconsistentCoordinateFields),
        }
    }

    /// The longitude of an angle in decimal degrees, negative for west.
    ///
    /// Fails exactly when the angle is 180 degrees or more in magnitude.
    /// Nothing is rounded.
    pub fn try_from(value: Decimal) -> (r: Result<Longitude, CoordinateOutOfRange>)
        requires
            value.is_compact(),
        ensures
            r == Longitude::spec_try_from(value),
            r matches Ok(lon) ==> lon.wf() && lon.degrees < 180 && lon.minutes < 60
                && lon.seconds.spec_lt_int(60),
    {
        let a = magnitude_exec(value);
        if !a.lt_int(180) {
            return Err(CoordinateOutOfRange);
        }
        let dms = degrees_to_dms_exec(a);
        Ok(
            Longitude {
                degrees: dms.degrees,
                minutes: dms.minutes,
                seconds: dms.seconds,
                hemisphere: if value.mantissa >= 0 {
                    Hemisphere::East
                } else {
                    Hemisphere::West
                },
            },
        )
    }

    /// The longitude in decimal degrees, negative for the west hemisphere
    /// and positive for the east.
    ///
    /// The result has four fractional digits more than the seconds, and is
    /// cut off, not rounded, after the last of them.
    pub fn as_f64(&self) -> (r: Decimal)
        requires
            self.wf(),
        ensures
            r == self.spec_as_f64(),
    {
        dms_to_degrees_exec(
            self.degrees,
            self.minutes,
            self.seconds,
            matches!(self.hemisphere, Hemisphere::West),
        )
    }

    /// Is in west hemisphere
    pub fn is_west(&self) -> (r: bool)
        ensures
            r == (self.hemisphere == Hemisphere::West),
    {
        matches!(self.hemisphere, Hemisphere::West)
    }

    /// Is in east hemisphere
    pub fn is_east(&self) -> (r: bool)
        ensures
            r == (self.hemisphere == Hemisphere::East),
    {
        matches!(self.hemisphere, Hemisphere::East)
    }
}

/// A longitude made from decimal degrees gives the same number back.
///
/// For every angle of less than 180 degrees in magnitude, `try_from`
/// succeeds, and `as_f64` of its result denotes the angle again.
pub proof fn lemma_longitude_round_trip(value: Decimal)
    requires
        value.is_compact(),
        magnitude(value).spec_lt_int(180),
    ensures
        Longitude::spec_try_from(value) is Ok,
        Longitude::spec_try_from(value)->Ok_0.wf(),
        Longitude::spec_try_from(value)->Ok_0.spec_as_f64().same_value(value),
{
    let a = magnitude(value);
    lemma_degrees_to_dms(a);
    lemma_dms_round_trip(a, value.mantissa < 0);
}

/// Altitude reported by receiver typically in GGA sentence.
#[derive(Debug, Clone, Copy, PartialEq, Eq, Structural)]
pub struct Altitude {
    /// Altitude in meters over ground.
    pub meters: Decimal,
}

impl Altitude {
    /// What `parse` returns.
    pub open spec fn spec_parse(input: Option<Seq<u8>>) -> Result<Option<Altitude>, ErrorKind> {
        match spec_parse_number(input) {
            Ok(Some(meters)) => Ok(Some(Altitude { meters })),
            Ok(None) => Ok(None),
            Err(e) => Err(e),
        }
    }

    /// Decodes an altitude field: a decimal number of meters.
    pub fn parse(input: Option<&[u8]>) -> (r: Result<Option<Altitude>, ErrorKind>)
        ensures
            r == Altitude::spec_parse(token_view(input)),
            r matches Ok(Some(a)) ==> a.meters.is_compact(),
    {
        match parse_decimal(input) {
            Ok(Some(meters)) => Ok(Some(Altitude { meters })),
            Ok(None) => Ok(None),
            Err(e) => Err(e),
        }
    }
}

/// The magnitude that a speed in knots stays below: 10^24.
pub const SPEED_LIMIT: i128 = 1_000_000_000_000_000_000_000_000;

/// Speed reported by receiver typically in RMC and VTG sentences.
///
/// It is kept in knots, and converted to other units on demand.
#[derive(Debug, Clone, Copy, PartialEq, Eq, Structural)]
pub struct Speed {
    knots: Decimal,
}

impl Speed {
    #[verifier::type_invariant]
    spec fn in_reach(self) -> bool {
        self.knots.scale <= 24 && -SPEED_LIMIT < self.knots.mantissa < SPEED_LIMIT
    }

    /// The speed in knots.
    pub closed spec fn spec_as_knots(self) -> Decimal {
        self.knots
    }

    /// The speed of `speed` knots.
    pub closed spec fn spec_from_knots(speed: Decimal) -> Speed {
        Speed { knots: speed }
    }

    /// A speed is made of its knots and of nothing else: the speed of some
    /// knots has those knots, and every speed is the speed of its knots.
    pub proof fn lemma_knots(speed: Speed, knots: Decimal)
        ensures
            Speed::spec_from_knots(knots).spec_as_knots() == knots,
            Speed::spec_from_knots(speed.spec_as_knots()) == speed,
    {
    }

    /// What `parse` returns.
    pub open spec fn spec_parse(input: Option<Seq<u8>>) -> Result<Option<Speed>, ErrorKind> {
        match spec_parse_number(input) {
            Ok(Some(knots)) => Ok(Some(Speed::spec_from_knots(knots))),
            Ok(None) => Ok(None),
            Err(e) => Err(e),
        }
    }

    /// Speed from knots
    pub fn from_knots(speed: Decimal) -> (r: Speed)
        requires
            speed.is_compact(),
        ensures
            r == Speed::spec_from_knots(speed),
            r.spec_as_knots() == speed,
    {
        Speed { knots: speed }
    }

    /// Speed from meters per second: one is 1.94384 knots.
    pub fn from_mps(speed: Decimal) -> (r: Speed)
        requires
            speed.is_compact(),
        ensures
            r == Speed::spec_from_knots(speed.scaled(194_384, 5)),
            r.spec_as_knots() == speed.scaled(194_384, 5),
    {
        Speed { knots: speed.scale_by(194_384, 5) }
    }

    /// Speed from miles per hour: one is 0.868976 knots.
    pub fn from_mph(speed: Decimal) -> (r: Speed)
        requires
            speed.is_compact(),
        ensures
            r == Speed::spec_from_knots(speed.scaled(868_976, 6)),
            r.spec_as_knots() == speed.scaled(868_976, 6),
    {
        Speed { knots: speed.scale_by(868_976, 6) }
    }

    /// Speed from kilometers per hour: one is 0.539957 knots.
    pub fn from_kph(speed: Decimal) -> (r: Speed)
        requires
            speed.is_compact(),
        ensures
            r == Speed::spec_from_knots(speed.scaled(539_957, 6)),
            r.spec_as_knots() == speed.scaled(539_957, 6),
    {
        Speed { knots: speed.scale_by(539_957, 6) }
    }

    /// Speed as knots
    pub fn as_knots(&self) -> (r: Decimal)
        ensures
            r == self.spec_as_knots(),
    {
        self.knots
    }

    /// Speed as kilometers per hour: a knot is 1.852 of them.
    pub fn as_kph(&self) -> (r: Decimal)
        ensures
            r == self.spec_as_knots().scaled(1_852, 3),
    {
        proof {
            use_type_invariant(self);
        }
        self.knots.scale_by(1_852, 3)
    }

    /// Speed as miles per hour: a knot is 1.15078 of them.
    pub fn as_mph(&self) -> (r: Decimal)
        ensures
            r == self.spec_as_knots().scaled(115_078, 5),
    {
        proof {
            use_type_invariant(self);
        }
        self.knots.scale_by(115_078, 5)
    }

    /// Speed as meters per second: a knot is 0.514444 of them.
    pub fn as_mps(&self) -> (r: Decimal)
        ensures
            r == self.spec_as_knots().scaled(514_444, 6),
    {
        proof {
            use_type_invariant(self);
        }
        self.knots.scale_by(514_444, 6)
    }

    /// Decodes a speed field: a decimal number of knots.
    pub fn parse(input: Option<&[u8]>) -> (r: Result<Option<Speed>, ErrorKind>)
        ensures
            r == Speed::spec_parse(token_view(input)),
            r matches Ok(Some(speed)) ==> spec_parse_number(token_view(input)) == Ok::<
                Option<Decimal>,
                ErrorKind,
            >(Some(speed.spec_as_knots())),
    {
        match parse_decimal(input) {
            Ok(Some(knots)) => Ok(Some(Speed { knots })),
            Ok(None) => Ok(None),
            Err(e) => Err(e),
        }
    }
}

/// The course over ground.
#[derive(Debug, Clone, Copy, PartialEq, Eq, Structural)]
pub struct Course {
    /// Course in degrees from North rotated clockwise.
    pub degrees: Decimal,
}

impl From<Decimal> for Course {
    fn from(value: Decimal) -> (r: Course) {
        Course { degrees: value }
    }
}

impl vstd::std_specs::convert::FromSpecImpl<Decimal> for Course {
    open spec fn obeys_from_spec() -> bool {
        true
    }

    open spec fn from_spec(value: Decimal) -> Course {
        Course { degrees: value }
    }
}

impl Course {
    /// What `parse` returns.
    pub open spec fn spec_parse(input: Option<Seq<u8>>) -> Result<Option<Course>, ErrorKind> {
        match spec_parse_number(input) {
            Ok(Some(degrees)) => Ok(Some(Course { degrees })),
            Ok(None) => Ok(None),
            Err(e) => Err(e),
        }
    }

    /// Decodes a course field: a decimal number of degrees.
    pub fn parse(input: Option<&[u8]>) -> (r: Result<Option<Course>, ErrorKind>)
        ensures
            r == Course::spec_parse(token_view(input)),
            r matches Ok(Some(c)) ==> c.degrees.is_compact(),
    {
        match parse_decimal(input) {
            Ok(Some(degrees)) => Ok(Some(Course { degrees })),
            Ok(None) => Ok(None),
            Err(e) => Err(e),
        }
    }
}

/// The course over ground calculated from True course and magnetic
/// variation.
#[derive(Debug, Clone, Copy, PartialEq, Eq, Structural)]
pub struct MagneticCourse {
    /// Course in degrees from Magnetic North Pole rotated clockwise.
    pub degrees: Decimal,
}

impl From<Decimal> for MagneticCourse {
    fn from(value: Decimal) -> (r: MagneticCourse) {
        MagneticCourse { degrees: value }
    }
}

impl vstd::std_specs::convert::FromSpecImpl<Decimal> for MagneticCourse {
    open spec fn obeys_from_spec() -> bool {
        true
    }

    open spec fn from_spec(value: Decimal) -> MagneticCourse {
        MagneticCourse { degrees: value }
    }
}

impl MagneticCourse {
    /// What `parse_from_str` returns.
    pub open spec fn spec_parse_from_str(input: Option<Seq<u8>>) -> Result<
        Option<MagneticCourse>,
        ErrorKind,
    > {
        match spec_parse_number(input) {
            Ok(Some(degrees)) => Ok(Some(MagneticCourse { degrees })),
            Ok(None) => Ok(None),
            Err(e) => Err(e),
        }
    }

    /// What `parse_from_mvar_mdir` returns.
    pub open spec fn spec_parse_from_mvar_mdir(
        true_course: Option<Course>,
        mvar: Option<Seq<u8>>,
        mdir: Option<Seq<u8>>,
    ) -> Result<Option<MagneticCourse>, ErrorKind> {
        match (true_course, mvar, mdir) {
            (Some(course), Some(variation), Some(direction)) => if variation.len() == 0
                && direction.len() == 0 {
                Ok(None)
            } else {
                match Decimal::spec_parse(variation) {
                    Some(magnetic) => if direction == seq![LETTER_E] {
                        Ok(Some(MagneticCourse { degrees: course.degrees.spec_minus(magnetic) }))
                    } else if direction == seq![LETTER_W] {
                        Ok(Some(MagneticCourse { degrees: course.degrees.spec_plus(magnetic) }))
                    } else {
                        Err(ErrorKind::FieldFormatError)
                    },
                    None => Err(ErrorKind::FieldFormatError),
                }
            },
            _ => Ok(None),
        }
    }

    /// Decodes a magnetic course field: a decimal number of degrees.
    pub fn parse_from_str(input: Option<&[u8]>) -> (r: Result<Option<MagneticCourse>, ErrorKind>)
        ensures
            r == MagneticCourse::spec_parse_from_str(token_view(input)),
    {
        match parse_decimal(input) {
            Ok(Some(degrees)) => Ok(Some(MagneticCourse { degrees })),
            Ok(None) => Ok(None),
            Err(e) => Err(e),
        }
    }

    /// Works out the magnetic course from the true course, the magnetic
    /// variation and its direction.
    ///
    /// Without a true course, or with either token missing, there is no
    /// magnetic course; nor is there with both tokens empty. Otherwise the
    /// variation must be a decimal number and the direction `E` or `W`, or
    /// the field is malformed: an easterly variation is taken from the true
    /// course, a westerly one added to it.
    pub fn parse_from_mvar_mdir(
        true_course: &Option<Course>,
        mvar: Option<&[u8]>,
        mdir: Option<&[u8]>,
    ) -> (r: Result<Option<MagneticCourse>, ErrorKind>)
        requires
            true_course matches Some(course) ==> course.degrees.is_compact(),
        ensures
            r == MagneticCourse::spec_parse_from_mvar_mdir(
                *true_course,
                token_view(mvar),
                token_view(mdir),
            ),
    {
        match (true_course, mvar, mdir) {
            (Some(course), Some(variation), Some(direction)) => {
                if variation.len() == 0 && direction.len() == 0 {
                    return Ok(None);
                }
                let magnetic = match Decimal::parse(variation) {
                    Some(d) => d,
                    None => {
                        return Err(ErrorKind::FieldFormatError);
                    },
                };
                if is_byte(direction, LETTER_E) {
                    Ok(Some(MagneticCourse { degrees: course.degrees.minus(&magnetic) }))
                } else if is_byte(direction, LETTER_W) {
                    Ok(Some(MagneticCourse { degrees: course.degrees.plus(&magnetic) }))
                } else {
                    Err(ErrorKind::FieldFormatError)
                }
            },
            _ => Ok(None),
        }
    }
}

} // verus!
