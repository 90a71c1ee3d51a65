//! NMEA date and time structures.

use crate::common::{all_digits, digits_value, token_view, two_digits};
use crate::decimal::Decimal;
use crate::error::ErrorKind;
use vstd::prelude::*;
use vstd::slice::slice_subrange;

verus! {

/// NMEA date.
#[derive(Debug, Clone, Copy, PartialEq, Eq, Structural)]
pub struct Date {
    /// Day of the month, 1 to 31.
    pub day: u8,
    /// Month, 1 to 12.
    pub month: u8,
    /// Absolute year, worked out from the two transmitted digits: 70 to 99
    /// are 1970 to 1999, 00 to 69 are 2000 to 2069.
    pub year: u16,
}

/// The number written by the two digits of `s` from `at` on.
pub open spec fn pair_value(s: Seq<u8>, at: int) -> int {
    digits_value(s.subrange(at, at + 2))
}

/// The year that the two transmitted digits `yy` stand for.
pub open spec fn expand_year(yy: int) -> int {
    if yy > 69 {
        1900 + yy
    } else {
        2000 + yy
    }
}

impl Date {
    /// Whether day and month are in range.
    pub open spec fn wf(self) -> bool {
        1 <= self.day <= 31 && 1 <= self.month <= 12
    }

    /// What `parse_from_ddmmyy` returns.
    pub open spec fn spec_parse_from_ddmmyy(input: Option<Seq<u8>>) -> Result<
        Option<Date>,
        ErrorKind,
    > {
        match input {
            None => Ok(None),
            Some(s) => if s.len() == 0 {
                Ok(None)
            } else if s.len() >= 6 && all_digits(s.subrange(0, 6)) && 1 <= pair_value(s, 0) <= 31
                && 1 <= pair_value(s, 2) <= 12 {
                Ok(
                    Some(
                        Date {
                            day: pair_value(s, 0) as u8,
                            month: pair_value(s, 2) as u8,
                            year: expand_year(pair_value(s, 4)) as u16,
                        },
                    ),
                )
            } else {
                Err(ErrorKind::FieldFormatError)
            },
        }
    }

    /// Decodes a date field written `ddmmyy`.
    ///
    /// A missing or empty token is no date. Otherwise the token must begin
    /// with six digits, of which the first two are a day from 1 to 31 and
    /// the next two a month from 1 to 12; what follows the six digits is not
    /// read. Anything else is a format error.
    pub fn parse_from_ddmmyy(input: Option<&[u8]>) -> (r: Result<Option<Date>, ErrorKind>)
        ensures
            r == Date::spec_parse_from_ddmmyy(token_view(input)),
            r matches Ok(Some(date)) ==> date.wf(),
    {
        let s = match input {
            None => {
                return Ok(None);
            },
            Some(s) => s,
        };
        if s.len() == 0 {
            return Ok(None);
        }
        if s.len() < 6 {
            return Err(ErrorKind::FieldFormatError);
        }
        proof {
            lemma_six_digits(s@);
        }
        let day: u8 = match two_digits(s, 0) {
            Some(d) => d,
            None => {
                return Err(ErrorKind::FieldFormatError);
            },
        };
        let month: u8 = match two_digits(s, 2) {
            Some(m) => m,
            None => {
                return Err(ErrorKind::FieldFormatError);
            },
        };
        let yy: u8 = match two_digits(s, 4) {
            Some(y) => y,
            None => {
                return Err(ErrorKind::FieldFormatError);
            },
        };
        if day < 1 || day > 31 || month < 1 || month > 12 {
            return Err(ErrorKind::FieldFormatError);
        }
        let year: u16 = if yy > 69 {
            1900 + yy as u16
        } else {
            2000 + yy as u16
        };
        Ok(Some(Date { day, month, year }))
    }
}

/// Six bytes are digits exactly when each of the three pairs is.
pub proof fn lemma_six_digits(s: Seq<u8>)
    requires
        s.len() >= 6,
    ensures
        all_digits(s.subrange(0, 6)) <==> all_digits(s.subrange(0, 2)) && all_digits(
            s.subrange(2, 4),
        ) && all_digits(s.subrange(4, 6)),
{
    let six = s.subrange(0, 6);
    let a = s.subrange(0, 2);
    let b = s.subrange(2, 4);
    let c = s.subrange(4, 6);
    if all_digits(six) {
        assert forall|i: int| 0 <= i < 2 implies crate::common::is_digit(#[trigger] a[i]) by {
            assert(a[i] == six[i]);
        }
        assert forall|i: int| 0 <= i < 2 implies crate::common::is_digit(#[trigger] b[i]) by {
            assert(b[i] == six[i + 2]);
        }
        assert forall|i: int| 0 <= i < 2 implies crate::common::is_digit(#[trigger] c[i]) by {
            assert(c[i] == six[i + 4]);
        }
    }
    if all_digits(a) && all_digits(b) && all_digits(c) {
        assert forall|i: int| 0 <= i < 6 implies crate::common::is_digit(#[trigger] six[i]) by {
            if i < 2 {
                assert(six[i] == a[i]);
            } else if i < 4 {
                assert(six[i] == b[i - 2]);
            } else {
                assert(six[i] == c[i - 4]);
            }
        }
    }
}

/// Four bytes are digits exactly when each of the two pairs is.
pub proof fn lemma_four_digits(s: Seq<u8>)
    requires
        s.len() >= 4,
    ensures
        all_digits(s.subrange(0, 4)) <==> all_digits(s.subrange(0, 2)) && all_digits(
            s.subrange(2, 4),
        ),
{
    let four = s.subrange(0, 4);
    let a = s.subrange(0, 2);
    let b = s.subrange(2, 4);
    if all_digits(four) {
        assert forall|i: int| 0 <= i < 2 implies crate::common::is_digit(#[trigger] a[i]) by {
            assert(a[i] == four[i]);
        }
        assert forall|i: int| 0 <= i < 2 implies crate::common::is_digit(#[trigger] b[i]) by {
            assert(b[i] == four[i + 2]);
        }
    }
    if all_digits(a) && all_digits(b) {
        assert forall|i: int| 0 <= i < 4 implies crate::common::is_digit(#[trigger] four[i]) by {
            if i < 2 {
                assert(four[i] == a[i]);
            } else {
                assert(four[i] == b[i - 2]);
            }
        }
    }
}

/// NMEA time in UTC.
#[derive(Debug, Clone, Copy, PartialEq, Eq, Structural)]
pub struct Time {
    /// Hours as reported by receiver, below 24.
    pub hours: u8,
    /// Minutes as reported by receiver, below 60.
    pub minutes: u8,
    /// Seconds as reported by receiver, below 60. Precision and accuracy
    /// depend on the receiver.
    pub seconds: Decimal,
}

impl Time {
    /// Whether every part is in range, and the seconds have the size of a
    /// decoded field.
    pub open spec fn wf(self) -> bool {
        &&& self.hours < 24
        &&& self.minutes < 60
        &&& self.seconds.is_compact()
        &&& self.seconds.spec_lt_int(60)
    }

    /// What `parse_from_hhmmss` returns.
    pub open spec fn spec_parse_from_hhmmss(input: Option<Seq<u8>>) -> Result<
        Option<Time>,
        ErrorKind,
    > {
        match input {
            None => Ok(None),
            Some(s) => if s.len() == 0 {
                Ok(None)
            } else if s.len() >= 6 && all_digits(s.subrange(0, 4)) && pair_value(s, 0) < 24
                && pair_value(s, 2) < 60 && Decimal::spec_parse(s.skip(4)) is Some
                && Decimal::spec_parse(s.skip(4))->0.spec_lt_int(60) {
                Ok(
                    Some(
                        Time {
                            hours: pair_value(s, 0) as u8,
                            minutes: pair_value(s, 2) as u8,
                            seconds: Decimal::spec_parse(s.skip(4))->0,
                        },
                    ),
                )
            } else {
                Err(ErrorKind::FieldFormatError)
            },
        }
    }

    /// Decodes a time field written `hhmmss` or `hhmmss.sss`.
    ///
    /// A missing or empty token is no time. Otherwise the token must be at
    /// least six bytes long: two digits of hours below 24, two digits of
    /// minutes below 60, and the rest a decimal number of seconds below 60.
    /// Anything else is a format error.
    pub fn parse_from_hhmmss(input: Option<&[u8]>) -> (r: Result<Option<Time>, ErrorKind>)
        ensures
            r == Time::spec_parse_from_hhmmss(token_view(input)),
            r matches Ok(Some(time)) ==> time.wf(),
    {
        let s = match input {
            None => {
                return Ok(None);
            },
            Some(s) => s,
        };
        if s.len() == 0 {
            return Ok(None);
        }
        if s.len() < 6 {
            return Err(ErrorKind::FieldFormatError);
        }
        proof {
            lemma_four_digits(s@);
        }
        let hours: u8 = match two_digits(s, 0) {
            Some(h) => h,
            None => {
                return Err(ErrorKind::FieldFormatError);
            },
        };
        let minutes: u8 = match two_digits(s, 2) {
            Some(m) => m,
            None => {
                return Err(ErrorKind::FieldFormatError);
            },
        };
        if hours >= 24 || minutes >= 60 {
            return Err(ErrorKind::FieldFormatError);
        }
        let rest = slice_subrange(s, 4, s.len());
        assert(rest@ =~= s@.skip(4));
        let seconds = match Decimal::parse(rest) {
            Some(d) => d,
            None => {
                return Err(ErrorKind::FieldFormatError);
            },
        };
        if !seconds.lt_int(60) {
            return Err(ErrorKind::FieldFormatError);
        }
        Ok(Some(Time { hours, minutes, seconds }))
    }
}

/// NMEA date and time in UTC.
#[derive(Debug, Clone, Copy, PartialEq, Eq, Structural)]
pub struct DateTime {
    /// NMEA date.
    pub date: Date,
    /// NMEA time.
    pub time: Time,
}

impl DateTime {
    /// What `from_date_and_time` returns.
    pub open spec fn spec_from_date_and_time(
        maybe_date: Option<Date>,
        maybe_time: Option<Time>,
    ) -> Result<Option<DateTime>, ErrorKind> {
        match (maybe_date, maybe_time) {
            (Some(date), Some(time)) => Ok(Some(DateTime { date, time })),
            (None, None) => Ok(None),
            _ => Err(ErrorKind::AsymmetricDateTime),
        }
    }

    /// Joins a date and a time: both present is a value, both absent is no
    /// value, and one without the other is `AsymmetricDateTime`.
    pub fn from_date_and_time(maybe_date: Option<Date>, maybe_time: Option<Time>) -> (r: Result<
        Option<DateTime>,
        ErrorKind,
    >)
        ensures
            r == DateTime::spec_from_date_and_time(maybe_date, maybe_time),
    {
        match (maybe_date, maybe_time) {
            (Some(date), Some(time)) => Ok(Some(DateTime { date, time })),
            (None, None) => Ok(None),
            _ => Err(ErrorKind::AsymmetricDateTime),
        }
    }
}

} // verus!
