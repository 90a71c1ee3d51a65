//! The GLL sentence: geographic position with the time of the fix.

use crate::coords::{Latitude, Longitude};
use crate::datetime::Time;
use crate::error::ErrorKind;
use crate::fields::{field_at, lemma_fields_after_zero, Fields};
use crate::filter::Source;
use crate::modes::{Mode, Status};
use vstd::prelude::*;

verus! {

/// Geographic latitude ang longitude sentence with time of fix and receiver
/// state.
#[derive(Debug, Clone, Copy, PartialEq, Eq)]
pub struct GLL {
    /// Navigational system.
    pub source: Source,
    /// Time of fix in UTC.
    pub time: Time,
    /// Latitude in reference datum, mostly WGS-84.
    pub latitude: Latitude,
    /// Logitude in reference datum, mostly WGS-84.
    pub longitude: Longitude,
    /// Receiver's mode of operation.
    pub mode: Mode,
}

impl GLL {
    /// Whether time and position are well-formed.
    pub open spec fn wf(self) -> bool {
        self.time.wf() && self.latitude.wf() && self.longitude.wf()
    }

    /// What `parse` returns for the tokens that follow the sentence's
    /// leading token.
    ///
    /// The first malformed field, in the order of the sentence, decides the
    /// error.
    pub open spec fn spec_parse(source: Source, tokens: Seq<Seq<u8>>) -> Result<
        Option<GLL>,
        ErrorKind,
    > {
        let latitude = Latitude::spec_parse(field_at(tokens, 0), field_at(tokens, 1));
        let longitude = Longitude::spec_parse(field_at(tokens, 2), field_at(tokens, 3));
        let time = Time::spec_parse_from_hhmmss(field_at(tokens, 4));
        let status = Status::spec_from_field(field_at(tokens, 5));
        if latitude is Err {
            Err(latitude->Err_0)
        } else if longitude is Err {
            Err(longitude->Err_0)
        } else if time is Err {
            Err(time->Err_0)
        } else if status is Err {
            Err(status->Err_0)
        } else {
            let mode = Mode::spec_from_some_str_or_status(field_at(tokens, 6), status->Ok_0);
            if mode is Err {
                Err(mode->Err_0)
            } else if latitude->Ok_0 is Some && longitude->Ok_0 is Some && time->Ok_0 is Some {
                Ok(
                    Some(
                        GLL {
                            source,
                            time: time->Ok_0->0,
                            latitude: latitude->Ok_0->0,
                            longitude: longitude->Ok_0->0,
                            mode: mode->Ok_0,
                        },
                    ),
                )
            } else {
                Ok(None)
            }
        }
    }

    /// Decodes the fields of a GLL sentence: latitude and its hemisphere,
    /// longitude and its hemisphere, time, status, mode.
    ///
    /// A malformed field is an error, and the status is mandatory. With
    /// latitude, longitude or time missing or empty there is no record; a
    /// missing mode is taken from the status.
    pub fn parse(source: Source, fields: Fields) -> (r: Result<Option<GLL>, ErrorKind>)
        ensures
            r == GLL::spec_parse(source, fields@),
            r matches Ok(Some(gll)) ==> gll.wf(),
    {
        let ghost tokens = fields@;
        let mut cursor = fields;
        proof {
            lemma_fields_after_zero(tokens);
        }
        let latitude_token = cursor.next();
        let latitude = Latitude::parse(latitude_token, cursor.next())?;
        let longitude_token = cursor.next();
        let longitude = Longitude::parse(longitude_token, cursor.next())?;
        let time = Time::parse_from_hhmmss(cursor.next())?;
        let status = Status::from_field(cursor.next())?;
        let mode = Mode::from_some_str_or_status(cursor.next(), &status)?;
        match (latitude, longitude, time) {
            (Some(latitude), Some(longitude), Some(time)) => Ok(
                Some(GLL { source, time, latitude, longitude, mode }),
            ),
            _ => Ok(None),
        }
    }
}

} // verus!
