use nmea0183::datetime::{Date, DateTime, Time};
use nmea0183::decimal::Decimal;
use nmea0183::ErrorKind;

fn text_of(d: Decimal) -> String {
    let digits = format!("{}", d.mantissa.unsigned_abs());
    let scale = d.scale as usize;
    let padded = if digits.len() <= scale {
        format!("{}{}", "0".repeat(scale + 1 - digits.len()), digits)
    } else {
        digits
    };
    let (whole, fraction) = padded.split_at(padded.len() - scale);
    let sign = if d.mantissa < 0 { "-" } else { "" };
    format!("{}{}.{}", sign, whole, fraction)
}

fn f32_of(d: Decimal) -> f32 {
    text_of(d).parse().unwrap()
}

fn seconds(x: f32) -> Decimal {
    Decimal::parse(format!("{}", x).as_bytes()).unwrap()
}

#[test]
fn test_parse_date() {
    let date = Date::parse_from_ddmmyy(Some("010210".as_bytes()))
        .unwrap()
        .unwrap();
    assert_eq!(date.day, 1);
    assert_eq!(date.month, 2);
    assert_eq!(date.year, 2010);
    let date = Date::parse_from_ddmmyy(Some("010270".as_bytes()))
        .unwrap()
        .unwrap();
    assert_eq!(date.day, 1);
    assert_eq!(date.month, 2);
    assert_eq!(date.year, 1970);
    assert!(Date::parse_from_ddmmyy(Some("011470".as_bytes())).is_err());
    assert!(Date::parse_from_ddmmyy(Some("451070".as_bytes())).is_err());
}

#[test]
fn test_parse_time() {
    let time = Time::parse_from_hhmmss(Some("124201.340".as_bytes()))
        .unwrap()
        .unwrap();
    assert_eq!(time.hours, 12);
    assert_eq!(time.minutes, 42);
    assert_eq!(f32_of(time.seconds), 1.34);
    assert!(Time::parse_from_hhmmss(Some("304201.340".as_bytes())).is_err());
    assert!(Time::parse_from_hhmmss(Some("109001.340".as_bytes())).is_err());
}

#[test]
fn test_from_date_and_time() {
    assert!(DateTime::from_date_and_time(
        Some(Date {
            day: 1,
            month: 10,
            year: 2010
        }),
        Some(Time {
            hours: 1,
            minutes: 2,
            seconds: seconds(50.0f32)
        })
    )
    .is_ok());
    assert!(DateTime::from_date_and_time(
        Some(Date {
            day: 1,
            month: 10,
            year: 2010
        }),
        None
    )
    .is_err());
    assert!(DateTime::from_date_and_time(
        None,
        Some(Time {
            hours: 1,
            minutes: 2,
            seconds: seconds(50.0f32)
        })
    )
    .is_err());
    assert_eq!(DateTime::from_date_and_time(None, None), Ok(None));
}

#[test]
fn date_and_time_come_together_or_not_at_all() {
    let date = Date { day: 20, month: 9, year: 2006 };
    let time = Time { hours: 12, minutes: 55, seconds: Decimal { mantissa: 4049, scale: 3 } };
    assert_eq!(
        DateTime::from_date_and_time(Some(date), Some(time)),
        Ok(Some(DateTime { date, time }))
    );
    assert_eq!(
        DateTime::from_date_and_time(Some(date), None),
        Err(ErrorKind::AsymmetricDateTime)
    );
    assert_eq!(
        DateTime::from_date_and_time(None, Some(time)),
        Err(ErrorKind::AsymmetricDateTime)
    );
}

#[test]
fn the_century_turns_at_seventy() {
    let year = |text: &str| Date::parse_from_ddmmyy(Some(text.as_bytes())).unwrap().unwrap().year;
    assert_eq!(year("010100"), 2000);
    assert_eq!(year("010169"), 2069);
    assert_eq!(year("010170"), 1970);
    assert_eq!(year("010199"), 1999);
}

#[test]
fn dates_are_held_to_their_ranges() {
    let parse = |text: &str| Date::parse_from_ddmmyy(Some(text.as_bytes()));
    assert_eq!(parse(""), Ok(None));
    assert_eq!(Date::parse_from_ddmmyy(None), Ok(None));
    assert_eq!(parse("01011"), Err(ErrorKind::FieldFormatError));
    assert_eq!(parse("000106"), Err(ErrorKind::FieldFormatError));
    assert_eq!(parse("320106"), Err(ErrorKind::FieldFormatError));
    assert_eq!(parse("010006"), Err(ErrorKind::FieldFormatError));
    assert_eq!(parse("011306"), Err(ErrorKind::FieldFormatError));
    assert_eq!(parse("0101x6"), Err(ErrorKind::FieldFormatError));
    assert_eq!(parse("+10106"), Err(ErrorKind::FieldFormatError));
    assert_eq!(parse("311206"), Ok(Some(Date { day: 31, month: 12, year: 2006 })));
    assert_eq!(parse("200906trailing"), Ok(Some(Date { day: 20, month: 9, year: 2006 })));
}

#[test]
fn times_are_held_to_their_ranges() {
    let parse = |text: &str| Time::parse_from_hhmmss(Some(text.as_bytes()));
    assert_eq!(parse(""), Ok(None));
    assert_eq!(Time::parse_from_hhmmss(None), Ok(None));
    assert_eq!(parse("12420"), Err(ErrorKind::FieldFormatError));
    assert_eq!(parse("240000"), Err(ErrorKind::FieldFormatError));
    assert_eq!(parse("236000"), Err(ErrorKind::FieldFormatError));
    assert_eq!(parse("235960"), Err(ErrorKind::FieldFormatError));
    assert_eq!(parse("235960.0"), Err(ErrorKind::FieldFormatError));
    assert_eq!(parse("1242xx"), Err(ErrorKind::FieldFormatError));
    assert_eq!(parse("12x201"), Err(ErrorKind::FieldFormatError));
    assert_eq!(
        parse("235959.999"),
        Ok(Some(Time { hours: 23, minutes: 59, seconds: Decimal { mantissa: 59_999, scale: 3 } }))
    );
    assert_eq!(
        parse("225444"),
        Ok(Some(Time { hours: 22, minutes: 54, seconds: Decimal { mantissa: 44, scale: 0 } }))
    );
    assert_eq!(
        parse("125504.049"),
        Ok(Some(Time { hours: 12, minutes: 55, seconds: Decimal { mantissa: 4049, scale: 3 } }))
    );
}
