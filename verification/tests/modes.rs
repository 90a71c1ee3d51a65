use nmea0183::modes::{Mode, Status};
use nmea0183::ErrorKind;

#[test]
fn test_parse_status() {
    assert_eq!(Status::from_str("A".as_bytes()), Ok(Status::Valid));
    assert_eq!(Status::from_str("V".as_bytes()), Ok(Status::NotValid));
    assert_eq!(
        Status::from_str("".as_bytes()),
        Err(ErrorKind::FieldFormatError)
    );
}

#[test]
fn test_parse_mode() {
    assert_eq!(Mode::from_some_str(Some("A".as_bytes())), Ok(Mode::Autonomous));
    assert_eq!(Mode::from_some_str(Some("D".as_bytes())), Ok(Mode::Differential));
    assert_eq!(Mode::from_some_str(Some("E".as_bytes())), Ok(Mode::Estimated));
    assert_eq!(Mode::from_some_str(Some("M".as_bytes())), Ok(Mode::Manual));
    assert_eq!(Mode::from_some_str(Some("S".as_bytes())), Ok(Mode::Simulator));
    assert_eq!(Mode::from_some_str(Some("N".as_bytes())), Ok(Mode::NotValid));
    assert!(Mode::from_some_str(None).is_err());
    assert!(Mode::from_some_str(Some("".as_bytes())).is_err());
    assert!(Mode::from_some_str(Some("abc".as_bytes())).is_err());
}

#[test]
fn test_parse_mode_or_status() {
    assert_eq!(
        Mode::from_some_str_or_status(Some("A".as_bytes()), &Status::Valid),
        Ok(Mode::Autonomous)
    );
    assert_eq!(
        Mode::from_some_str_or_status(Some("D".as_bytes()), &Status::Valid),
        Ok(Mode::Differential)
    );
    assert_eq!(
        Mode::from_some_str_or_status(Some("E".as_bytes()), &Status::NotValid),
        Ok(Mode::Estimated)
    );
    assert_eq!(
        Mode::from_some_str_or_status(Some("M".as_bytes()), &Status::NotValid),
        Ok(Mode::Manual)
    );
    assert_eq!(
        Mode::from_some_str_or_status(Some("S".as_bytes()), &Status::NotValid),
        Ok(Mode::Simulator)
    );
    assert_eq!(
        Mode::from_some_str_or_status(Some("N".as_bytes()), &Status::NotValid),
        Ok(Mode::NotValid)
    );
    assert_eq!(
        Mode::from_some_str_or_status(None, &Status::NotValid),
        Ok(Mode::NotValid)
    );
    assert!(Mode::from_some_str_or_status(Some("".as_bytes()), &Status::NotValid).is_err());
    assert!(Mode::from_some_str_or_status(Some("abc".as_bytes()), &Status::NotValid).is_err());
}

#[test]
fn mode_errors_tell_empty_from_wrong() {
    assert_eq!(Mode::from_some_str(None), Err(ErrorKind::EmptyModeField));
    assert_eq!(Mode::from_some_str(Some(b"")), Err(ErrorKind::EmptyModeField));
    assert_eq!(Mode::from_some_str(Some(b"abc")), Err(ErrorKind::InvalidModeCharacter));
    assert_eq!(Mode::from_some_str(Some(b"a")), Err(ErrorKind::InvalidModeCharacter));
    assert_eq!(Mode::from_some_str(Some(b"AA")), Err(ErrorKind::InvalidModeCharacter));
    assert_eq!(
        Mode::from_some_str_or_status(Some(b""), &Status::Valid),
        Err(ErrorKind::EmptyModeField)
    );
    assert_eq!(
        Mode::from_some_str_or_status(Some(b"X"), &Status::Valid),
        Err(ErrorKind::InvalidModeCharacter)
    );
    assert_eq!(
        Mode::from_some_str_or_status(None, &Status::Valid),
        Ok(Mode::Autonomous)
    );
}

#[test]
fn only_two_modes_are_valid() {
    assert!(Mode::Autonomous.is_valid());
    assert!(Mode::Differential.is_valid());
    assert!(!Mode::Estimated.is_valid());
    assert!(!Mode::Manual.is_valid());
    assert!(!Mode::Simulator.is_valid());
    assert!(!Mode::NotValid.is_valid());
}

#[test]
fn a_status_field_is_mandatory() {
    assert_eq!(Status::from_field(None), Err(ErrorKind::FieldFormatError));
    assert_eq!(Status::from_field(Some(b"A")), Ok(Status::Valid));
    assert_eq!(Status::from_field(Some(b"V")), Ok(Status::NotValid));
    assert_eq!(Status::from_field(Some(b"AV")), Err(ErrorKind::FieldFormatError));
    assert_eq!(Status::from_str(b"a"), Err(ErrorKind::FieldFormatError));
}
