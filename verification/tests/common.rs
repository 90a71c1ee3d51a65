use nmea0183::common::{parse_decimal, parse_digits, parse_u16, parse_u8, two_digits};
use nmea0183::decimal::Decimal;
use nmea0183::ErrorKind;

fn text_of(d: Decimal) -> String {
    let digits = format!("{}", d.mantissa.unsigned_abs());
    let scale = d.scale as usize;
    let padded = if digits.len() <= scale {
        format!("{}{}", "0".repeat(scale + 1 - digits.len()), digits)
    } else {
        digits
    };
    let (whole, fraction) = padded.split_at(padded.len() - scale);
    let sign = if d.mantissa < 0 { "-" } else { "" };
    format!("{}{}.{}", sign, whole, fraction)
}

fn f32_of(d: Decimal) -> f32 {
    text_of(d).parse().unwrap()
}

#[test]
fn test_parse_u8() {
    assert_eq!(parse_u8(Some("".as_bytes())), Ok(None));
    assert_eq!(parse_u8(Some("123".as_bytes())), Ok(Some(123u8)));
    assert_eq!(
        parse_u8(Some("a123".as_bytes())),
        Err(ErrorKind::FieldFormatError)
    );
    assert_eq!(
        parse_u8(Some("-123".as_bytes())),
        Err(ErrorKind::FieldFormatError)
    );
    assert_eq!(
        parse_u8(Some("256".as_bytes())),
        Err(ErrorKind::FieldFormatError)
    );
}

#[test]
fn test_parse_u16() {
    assert_eq!(parse_u16(Some("".as_bytes())), Ok(None));
    assert_eq!(parse_u16(Some("123".as_bytes())), Ok(Some(123u16)));
    assert_eq!(
        parse_u16(Some("a123".as_bytes())),
        Err(ErrorKind::FieldFormatError)
    );
    assert_eq!(
        parse_u16(Some("-123".as_bytes())),
        Err(ErrorKind::FieldFormatError)
    );
    assert_eq!(
        parse_u16(Some("70000".as_bytes())),
        Err(ErrorKind::FieldFormatError)
    );
}

#[test]
fn test_parse_f32() {
    assert_eq!(parse_decimal(Some("".as_bytes())), Ok(None));
    assert_eq!(
        parse_decimal(Some("123.0".as_bytes())).map(|d| d.map(f32_of)),
        Ok(Some(123.0f32))
    );
    assert_eq!(
        parse_decimal(Some("a123.0".as_bytes())),
        Err(ErrorKind::FieldFormatError)
    );
}

#[test]
fn unsigned_fields_take_their_whole_range() {
    assert_eq!(parse_u8(None), Ok(None));
    assert_eq!(parse_u8(Some(b"0")), Ok(Some(0)));
    assert_eq!(parse_u8(Some(b"255")), Ok(Some(255)));
    assert_eq!(parse_u8(Some(b"000255")), Ok(Some(255)));
    assert_eq!(parse_u16(None), Ok(None));
    assert_eq!(parse_u16(Some(b"65535")), Ok(Some(65535)));
    assert_eq!(parse_u16(Some(b"65536")), Err(ErrorKind::FieldFormatError));
}

#[test]
fn unsigned_fields_refuse_what_is_no_digit() {
    assert_eq!(parse_u8(Some(b"+1")), Err(ErrorKind::FieldFormatError));
    assert_eq!(parse_u8(Some(b"1 ")), Err(ErrorKind::FieldFormatError));
    assert_eq!(parse_u8(Some(b"1.0")), Err(ErrorKind::FieldFormatError));
    assert_eq!(parse_u16(Some(b"12a")), Err(ErrorKind::FieldFormatError));
    assert_eq!(parse_u16(Some(&[0x31, 0xC3, 0xA9])), Err(ErrorKind::FieldFormatError));
}

#[test]
fn digits_are_read_up_to_the_limit() {
    assert_eq!(parse_digits(b"", 10), Some(0));
    assert_eq!(parse_digits(b"10", 10), Some(10));
    assert_eq!(parse_digits(b"11", 10), None);
    assert_eq!(parse_digits(b"999999999999999999", 999_999_999_999_999_999), Some(999_999_999_999_999_999));
    assert_eq!(parse_digits(b"1000000000000000000", 999_999_999_999_999_999), None);
    assert_eq!(parse_digits(b"99999999999999999999999999", 999_999_999_999_999_999), None);
    assert_eq!(parse_digits(b"1x", 99), None);
}

#[test]
fn two_digits_are_read_in_place() {
    assert_eq!(two_digits(b"123456", 0), Some(12));
    assert_eq!(two_digits(b"123456", 2), Some(34));
    assert_eq!(two_digits(b"123456", 4), Some(56));
    assert_eq!(two_digits(b"12x456", 2), None);
    assert_eq!(two_digits(b"00", 0), Some(0));
}
