//! The GGA sentence: position, altitude and the quality of the fix.

use crate::common::{
    parse_decimal, parse_u16, parse_u8, spec_parse_number, spec_parse_u16, spec_parse_u8,
    token_view, DIGIT_ZERO,
};
use crate::coords::{Altitude, Latitude, Longitude};
use crate::datetime::Time;
use crate::decimal::Decimal;
use crate::error::ErrorKind;
use crate::fields::{field_at, lemma_fields_after_zero, Fields};
use crate::filter::Source;
use vstd::prelude::*;

verus! {

/// Geographic coordinates including altitude, GPS solution quality, DGPS
/// usage information.
#[derive(Debug, Clone, Copy, PartialEq, Eq)]
pub struct GGA {
    /// Navigational system.
    pub source: Source,
    /// Time of fix in UTC.
    pub time: Time,
    /// Latitude in reference datum, typically WGS-84.
    pub latitude: Latitude,
    /// Logitude in reference datum, typically WGS-84.
    pub longitude: Longitude,
    /// Quality of GPS solution.
    pub gps_quality: GPSQuality,
    /// Sattelites in use
    pub sat_in_use: u8,
    /// Horizontal dilusion of presicion. Indicates precision of solution.
    pub hdop: Decimal,
    /// Altitude over ground, typically WGS-84.
    pub altitude: Altitude,
    /// The difference between reference ellipsoid surface and
    /// mean-sea-level.
    pub geoidal_separation: Option<Decimal>,
    /// DGPS data age in milliseconds. None if DGPS not in use.
    pub age_dgps: Option<u64>,
    /// ID of reference DGPS station used for fix. None if DGPS not in use.
    pub dgps_station_id: Option<u16>,
}

/// The age of the differential data in milliseconds, for a field that
/// gives it in seconds.
pub open spec fn spec_age_millis(age: Option<Decimal>) -> Option<u64> {
    match age {
        Some(seconds) => Some(seconds.spec_millis()),
        None => None,
    }
}

impl GGA {
    /// Whether time and position are well-formed.
    pub open spec fn wf(self) -> bool {
        self.time.wf() && self.latitude.wf() && self.longitude.wf()
    }

    /// What `parse` returns for the tokens that follow the sentence's
    /// leading token.
    ///
    /// The first malformed field, in the order of the sentence, decides the
    /// error. The units of altitude and separation, tokens 9 and 11, are
    /// not read.
    pub open spec fn spec_parse(source: Source, tokens: Seq<Seq<u8>>) -> Result<
        Option<GGA>,
        ErrorKind,
    > {
        let time = Time::spec_parse_from_hhmmss(field_at(tokens, 0));
        let latitude = Latitude::spec_parse(field_at(tokens, 1), field_at(tokens, 2));
        let longitude = Longitude::spec_parse(field_at(tokens, 3), field_at(tokens, 4));
        let gps_quality = GPSQuality::spec_parse(field_at(tokens, 5));
        let sat_in_use = spec_parse_u8(field_at(tokens, 6));
        let hdop = spec_parse_number(field_at(tokens, 7));
        let altitude = Altitude::spec_parse(field_at(tokens, 8));
        let geoidal_separation = spec_parse_number(field_at(tokens, 10));
        let age_dgps = spec_parse_number(field_at(tokens, 12));
        let dgps_station_id = spec_parse_u16(field_at(tokens, 13));
        if time is Err {
            Err(time->Err_0)
        } else if latitude is Err {
            Err(latitude->Err_0)
        } else if longitude is Err {
            Err(longitude->Err_0)
        } else if gps_quality is Err {
            Err(gps_quality->Err_0)
        } else if sat_in_use is Err {
            Err(sat_in_use->Err_0)
        } else if hdop is Err {
            Err(hdop->Err_0)
        } else if altitude is Err {
            Err(altitude->Err_0)
        } else if geoidal_separation is Err {
            Err(geoidal_separation->Err_0)
        } else if age_dgps is Err {
            Err(age_dgps->Err_0)
        } else if dgps_station_id is Err {
            Err(dgps_station_id->Err_0)
        } else if time->Ok_0 is Some && latitude->Ok_0 is Some && longitude->Ok_0 is Some
            && gps_quality->Ok_0 is Some && sat_in_use->Ok_0 is Some && hdop->Ok_0 is Some
            && altitude->Ok_0 is Some {
            Ok(
                Some(
                    GGA {
                        source,
                        time: time->Ok_0->0,
                        latitude: latitude->Ok_0->0,
                        longitude: longitude->Ok_0->0,
                        gps_quality: gps_quality->Ok_0->0,
                        sat_in_use: sat_in_use->Ok_0->0,
                        hdop: hdop->Ok_0->0,
                        altitude: altitude->Ok_0->0,
                        geoidal_separation: geoidal_separation->Ok_0,
                        age_dgps: spec_age_millis(age_dgps->Ok_0),
                        dgps_station_id: dgps_station_id->Ok_0,
                    },
                ),
            )
        } else {
            Ok(None)
        }
    }

    /// Decodes the fields of a GGA sentence: time, latitude and its
    /// hemisphere, longitude and its hemisphere, fix quality, satellites in
    /// use, horizontal dilution, altitude and its unit, geoidal separation
    /// and its unit, age of the differential data, differential station.
    ///
    /// A malformed field is an error. With time, latitude, longitude,
    /// quality, satellites in use, dilution or altitude missing or empty
    /// there is no record; the last three fields may be absent from a
    /// record.
    pub fn parse(source: Source, fields: Fields) -> (r: Result<Option<GGA>, ErrorKind>)
        ensures
            r == GGA::spec_parse(source, fields@),
            r matches Ok(Some(gga)) ==> gga.wf(),
    {
        let ghost tokens = fields@;
        let mut cursor = fields;
        proof {
            lemma_fields_after_zero(tokens);
        }
        let time = Time::parse_from_hhmmss(cursor.next())?;
        let latitude_token = cursor.next();
        let latitude = Latitude::parse(latitude_token, cursor.next())?;
        let longitude_token = cursor.next();
        let longitude = Longitude::parse(longitude_token, cursor.next())?;
        let gps_quality = GPSQuality::parse(cursor.next())?;
        let sat_in_use = parse_u8(cursor.next())?;
        let hdop = parse_decimal(cursor.next())?;
        let altitude = Altitude::parse(cursor.next())?;
        let _altitude_unit = cursor.next();
        let geoidal_separation = parse_decimal(cursor.next())?;
        let _separation_unit = cursor.next();
        let age_dgps = match parse_decimal(cursor.next())? {
            Some(seconds) => Some(seconds.millis()),
            None => None,
        };
        let dgps_station_id = parse_u16(cursor.next())?;
        match (time, latitude, longitude, gps_quality, sat_in_use, hdop, altitude) {
            (
                Some(time),
                Some(latitude),
                Some(longitude),
                Some(gps_quality),
                Some(sat_in_use),
                Some(hdop),
                Some(altitude),
            ) => Ok(
                Some(
                    GGA {
                        source,
                        time,
                        latitude,
                        longitude,
                        gps_quality,
                        sat_in_use,
                        hdop,
                        altitude,
                        geoidal_separation,
                        age_dgps,
                        dgps_station_id,
                    },
                ),
            ),
            _ => Ok(None),
        }
    }
}

/// Quality of GPS solution
#[derive(Debug, Clone, Copy, PartialEq, Eq, Structural)]
pub enum GPSQuality {
    /// No solution. Written `0`.
    NoFix,
    /// Ordinary GPS solution. Written `1`.
    GPS,
    /// Differential correction used. Written `2`.
    DGPS,
    /// Locked PPS (pulse per second). Written `3`.
    PPS,
    /// RTK correction is in use. Written `4`.
    RTK,
    /// Float RTK correction is in use. Written `5`.
    FRTK,
    /// Estimated by movement model. Written `6`.
    Estimated,
    /// Set by operator. Written `7`.
    Manual,
    /// Simulated. Written `8`.
    Simulated,
}

impl GPSQuality {
    /// The quality that the digit `b` stands for, if any.
    pub open spec fn from_digit(b: u8) -> Option<GPSQuality> {
        if b == DIGIT_ZERO {
            Some(GPSQuality::NoFix)
        } else if b == DIGIT_ZERO + 1 {
            Some(GPSQuality::GPS)
        } else if b == DIGIT_ZERO + 2 {
            Some(GPSQuality::DGPS)
        } else if b == DIGIT_ZERO + 3 {
            Some(GPSQuality::PPS)
        } else if b == DIGIT_ZERO + 4 {
            Some(GPSQuality::RTK)
        } else if b == DIGIT_ZERO + 5 {
            Some(GPSQuality::FRTK)
        } else if b == DIGIT_ZERO + 6 {
            Some(GPSQuality::Estimated)
        } else if b == DIGIT_ZERO + 7 {
            Some(GPSQuality::Manual)
        } else if b == DIGIT_ZERO + 8 {
            Some(GPSQuality::Simulated)
        } else {
            None
        }
    }

    /// What `parse` returns.
    pub open spec fn spec_parse(input: Option<Seq<u8>>) -> Result<Option<GPSQuality>, ErrorKind> {
        match input {
            None => Ok(None),
            Some(s) => if s.len() == 0 {
                Ok(None)
            } else if s.len() == 1 && GPSQuality::from_digit(s[0]) is Some {
                Ok(GPSQuality::from_digit(s[0]))
            } else {
                Err(ErrorKind::FieldFormatError)
            },
        }
    }

    /// Decodes a fix quality field: one digit from `0` to `8`. A missing or
    /// empty token is no quality, and any other text a format error.
    pub fn parse(input: Option<&[u8]>) -> (r: Result<Option<GPSQuality>, ErrorKind>)
        ensures
            r == GPSQuality::spec_parse(token_view(input)),
    {
        let s = match input {
            None => {
                return Ok(None);
            },
            Some(s) => s,
        };
        if s.len() == 0 {
            return Ok(None);
        }
        if s.len() != 1 {
            return Err(ErrorKind::FieldFormatError);
        }
        let b: u8 = s[0];
        if b == DIGIT_ZERO {
            Ok(Some(GPSQuality::NoFix))
        } else if b == DIGIT_ZERO + 1 {
            Ok(Some(GPSQuality::GPS))
        } else if b == DIGIT_ZERO + 2 {
            Ok(Some(GPSQuality::DGPS))
        } else if b == DIGIT_ZERO + 3 {
            Ok(Some(GPSQuality::PPS))
        } else if b == DIGIT_ZERO + 4 {
            Ok(Some(GPSQuality::RTK))
        } else if b == DIGIT_ZERO + 5 {
            Ok(Some(GPSQuality::FRTK))
        } else if b == DIGIT_ZERO + 6 {
            Ok(Some(GPSQuality::Estimated))
        } else if b == DIGIT_ZERO + 7 {
            Ok(Some(GPSQuality::Manual))
        } else if b == DIGIT_ZERO + 8 {
            Ok(Some(GPSQuality::Simulated))
        } else {
            Err(ErrorKind::FieldFormatError)
        }
    }
}

} // verus!
