//! The VTG sentence: course and speed over ground.

use crate::coords::{Course, MagneticCourse, Speed};
use crate::error::ErrorKind;
use crate::fields::{field_at, lemma_fields_after_zero, Fields};
use crate::filter::Source;
use crate::modes::Mode;
use vstd::prelude::*;

verus! {

/// The actual course and speed relative to the ground.
#[derive(Debug, Clone, Copy, PartialEq, Eq)]
pub struct VTG {
    /// Navigational system.
    pub source: Source,
    /// Course over ground. Some receivers do not reports it when no
    /// movement.
    pub course: Option<Course>,
    /// Magnetic course over ground (angle to magnetic North pole).
    pub magnetic: Option<MagneticCourse>,
    /// Speed over ground.
    pub speed: Speed,
    /// Receiver's mode of operation.
    pub mode: Mode,
}

impl VTG {
    /// What `parse` returns for the tokens that follow the sentence's
    /// leading token.
    ///
    /// The first malformed field, in the order of the sentence, decides the
    /// error. The markers of the units, and the speed in kilometers per
    /// hour, are not read.
    pub open spec fn spec_parse(source: Source, tokens: Seq<Seq<u8>>) -> Result<
        Option<VTG>,
        ErrorKind,
    > {
        let course = Course::spec_parse(field_at(tokens, 0));
        let magnetic = MagneticCourse::spec_parse_from_str(field_at(tokens, 2));
        let speed = Speed::spec_parse(field_at(tokens, 4));
        let mode = Mode::spec_from_some_str(field_at(tokens, 8));
        if course is Err {
            Err(course->Err_0)
        } else if magnetic is Err {
            Err(magnetic->Err_0)
        } else if speed is Err {
            Err(speed->Err_0)
        } else if mode is Err {
            Err(mode->Err_0)
        } else if speed->Ok_0 is Some {
            Ok(
                Some(
                    VTG {
                        source,
                        course: course->Ok_0,
                        magnetic: magnetic->Ok_0,
                        speed: speed->Ok_0->0,
                        mode: mode->Ok_0,
                    },
                ),
            )
        } else {
            Ok(None)
        }
    }

    /// Decodes the fields of a VTG sentence: true course and its marker,
    /// magnetic course and its marker, speed in knots and its marker, speed
    /// in kilometers per hour and its marker, mode.
    ///
    /// A malformed course or speed in knots is an error, and the mode is
    /// mandatory. With the speed in knots missing or empty there is no
    /// record; the courses may be absent from a record.
    pub fn parse(source: Source, fields: Fields) -> (r: Result<Option<VTG>, ErrorKind>)
        ensures
            r == VTG::spec_parse(source, fields@),
    {
        let ghost tokens = fields@;
        let mut cursor = fields;
        proof {
            lemma_fields_after_zero(tokens);
        }
        let course = Course::parse(cursor.next())?;
        let _true_marker = cursor.next();
        let magnetic = MagneticCourse::parse_from_str(cursor.next())?;
        let _magnetic_marker = cursor.next();
        let speed = Speed::parse(cursor.next())?;
        let _knots_marker = cursor.next();
        let _speed_kph = cursor.next();
        let _kph_marker = cursor.next();
        let mode = Mode::from_some_str(cursor.next())?;
        match speed {
            Some(speed) => Ok(Some(VTG { source, course, magnetic, speed, mode })),
            None => Ok(None),
        }
    }
}

} // verus!
