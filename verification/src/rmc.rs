//! The RMC sentence: the recommended minimum of navigation data.

use crate::coords::{Course, Latitude, Longitude, MagneticCourse, Speed};
use crate::datetime::{Date, DateTime, Time};
use crate::error::ErrorKind;
use crate::fields::{field_at, lemma_fields_after_zero, Fields};
use crate::filter::Source;
use crate::modes::{Mode, Status};
use vstd::prelude::*;

verus! {

/// Recommended Minimum Sentence for any GNSS source.
#[derive(Debug, Clone, Copy, PartialEq, Eq)]
pub struct RMC {
    /// Navigational system.
    pub source: Source,
    /// Date and time of fix in UTC.
    pub datetime: DateTime,
    /// Latitude in reference datum, mostly WGS-84.
    pub latitude: Latitude,
    /// Logitude in reference datum, mostly WGS-84.
    pub longitude: Longitude,
    /// Speed over ground.
    pub speed: Speed,
    /// Course over ground. Some receivers do not report it when no movement.
    pub course: Option<Course>,
    /// Magnetic course over ground (angle to magnetic North pole). Receiver
    /// may not report it.
    pub magnetic: Option<MagneticCourse>,
    /// Receiver's mode of operation.
    pub mode: Mode,
}

impl RMC {
    /// Whether date, time and position are well-formed.
    pub open spec fn wf(self) -> bool {
        &&& self.datetime.date.wf()
        &&& self.datetime.time.wf()
        &&& self.latitude.wf()
        &&& self.longitude.wf()
    }

    /// What `parse` returns for the tokens that follow the sentence's
    /// leading token.
    ///
    /// The first malformed field, in the order of the sentence, decides the
    /// error; a date without a time, or a time without a date, is found
    /// after all fields were read.
    pub open spec fn spec_parse(source: Source, tokens: Seq<Seq<u8>>) -> Result<
        Option<RMC>,
        ErrorKind,
    > {
        let time = Time::spec_parse_from_hhmmss(field_at(tokens, 0));
        let status = Status::spec_from_field(field_at(tokens, 1));
        let latitude = Latitude::spec_parse(field_at(tokens, 2), field_at(tokens, 3));
        let longitude = Longitude::spec_parse(field_at(tokens, 4), field_at(tokens, 5));
        let speed = Speed::spec_parse(field_at(tokens, 6));
        let course = Course::spec_parse(field_at(tokens, 7));
        let date = Date::spec_parse_from_ddmmyy(field_at(tokens, 8));
        if time is Err {
            Err(time->Err_0)
        } else if status is Err {
            Err(status->Err_0)
        } else if latitude is Err {
            Err(latitude->Err_0)
        } else if longitude is Err {
            Err(longitude->Err_0)
        } else if speed is Err {
            Err(speed->Err_0)
        } else if course is Err {
            Err(course->Err_0)
        } else if date is Err {
            Err(date->Err_0)
        } else {
            let magnetic = MagneticCourse::spec_parse_from_mvar_mdir(
                course->Ok_0,
                field_at(tokens, 9),
                field_at(tokens, 10),
            );
            let mode = Mode::spec_from_some_str_or_status(field_at(tokens, 11), status->Ok_0);
            let datetime = DateTime::spec_from_date_and_time(date->Ok_0, time->Ok_0);
            if magnetic is Err {
                Err(magnetic->Err_0)
            } else if mode is Err {
                Err(mode->Err_0)
            } else if datetime is Err {
                Err(datetime->Err_0)
            } else if datetime->Ok_0 is Some && latitude->Ok_0 is Some && longitude->Ok_0 is Some
                && speed->Ok_0 is Some {
                Ok(
                    Some(
                        RMC {
                            source,
                            datetime: datetime->Ok_0->0,
                            latitude: latitude->Ok_0->0,
                            longitude: longitude->Ok_0->0,
                            speed: speed->Ok_0->0,
                            course: course->Ok_0,
                            magnetic: magnetic->Ok_0,
                            mode: mode->Ok_0,
                        },
                    ),
                )
            } else {
                Ok(None)
            }
        }
    }

    /// Decodes the fields of an RMC sentence: time, status, latitude and
    /// its hemisphere, longitude and its hemisphere, speed in knots, course,
    /// date, magnetic variation and its direction, mode.
    ///
    /// A malformed field is an error, and the status is mandatory. With
    /// date and time, latitude, longitude or speed missing or empty there is
    /// no record; course and magnetic course may be absent from a record,
    /// and a missing mode is taken from the status.
    pub fn parse(source: Source, fields: Fields) -> (r: Result<Option<RMC>, ErrorKind>)
        ensures
            r == RMC::spec_parse(source, fields@),
            r matches Ok(Some(rmc)) ==> rmc.wf(),
    {
        let ghost tokens = fields@;
        let mut cursor = fields;
        proof {
            lemma_fields_after_zero(tokens);
        }
        let time = Time::parse_from_hhmmss(cursor.next())?;
        let status = Status::from_field(cursor.next())?;
        let latitude_token = cursor.next();
        let latitude = Latitude::parse(latitude_token, cursor.next())?;
        let longitude_token = cursor.next();
        let longitude = Longitude::parse(longitude_token, cursor.next())?;
        let speed = Speed::parse(cursor.next())?;
        let course = Course::parse(cursor.next())?;
        let date = Date::parse_from_ddmmyy(cursor.next())?;
        let variation_token = cursor.next();
        let magnetic = MagneticCourse::parse_from_mvar_mdir(
            &course,
            variation_token,
            cursor.next(),
        )?;
        let mode = Mode::from_some_str_or_status(cursor.next(), &status)?;
        let datetime = DateTime::from_date_and_time(date, time)?;
        match (datetime, latitude, longitude, speed) {
            (Some(datetime), Some(latitude), Some(longitude), Some(speed)) => Ok(
                Some(RMC { source, datetime, latitude, longitude, speed, course, magnetic, mode }),
            ),
            _ => Ok(None),
        }
    }
}

} // verus!
