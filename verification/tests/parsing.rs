use nmea0183::coords;
use nmea0183::coords::{Latitude, Longitude};
use nmea0183::datetime;
use nmea0183::Decimal;
use nmea0183::ErrorKind;
use nmea0183::GPSQuality;
use nmea0183::Mode;
use nmea0183::GGA;
use nmea0183::GLL;
use nmea0183::RMC;
use nmea0183::VTG;
use nmea0183::{ParseResult, Parser, Source};

fn text_of(d: Decimal) -> String {
    let digits = format!("{}", d.mantissa.unsigned_abs());
    let scale = d.scale as usize;
    let padded = if digits.len() <= scale {
        format!("{}{}", "0".repeat(scale + 1 - digits.len()), digits)
    } else {
        digits
    };
    let (whole, fraction) = padded.split_at(padded.len() - scale);
    let sign = if d.mantissa < 0 { "-" } else { "" };
    format!("{}{}.{}", sign, whole, fraction)
}

fn f32_of(d: Decimal) -> f32 {
    text_of(d).parse().unwrap()
}

fn decimal_of_f64(x: f64) -> Decimal {
    Decimal::parse(format!("{}", x).as_bytes()).unwrap()
}

fn latitude(degrees: f64) -> Latitude {
    Latitude::try_from(decimal_of_f64(degrees)).unwrap()
}

fn longitude(degrees: f64) -> Longitude {
    Longitude::try_from(decimal_of_f64(degrees)).unwrap()
}

fn assert_same_time(got: &datetime::Time, hours: u8, minutes: u8, seconds: f32) {
    assert_eq!(got.hours, hours);
    assert_eq!(got.minutes, minutes);
    assert_eq!(f32_of(got.seconds), seconds);
}

fn assert_same_latitude(got: &Latitude, expected: &Latitude) {
    assert_eq!(got.degrees, expected.degrees);
    assert_eq!(got.minutes, expected.minutes);
    assert_eq!(f32_of(got.seconds), f32_of(expected.seconds));
    assert_eq!(got.hemisphere, expected.hemisphere);
}

fn assert_same_longitude(got: &Longitude, expected: &Longitude) {
    assert_eq!(got.degrees, expected.degrees);
    assert_eq!(got.minutes, expected.minutes);
    assert_eq!(f32_of(got.seconds), f32_of(expected.seconds));
    assert_eq!(got.hemisphere, expected.hemisphere);
}

fn assert_vtg_089_15(result: Result<ParseResult, ErrorKind>) {
    let vtg: VTG = match result {
        Ok(ParseResult::VTG(Some(vtg))) => vtg,
        other => panic!("not a VTG record: {:?}", other),
    };
    assert_eq!(vtg.source, Source::GPS);
    assert_eq!(vtg.course.map(|c| f32_of(c.degrees)), Some(89.0));
    assert_eq!(vtg.magnetic, None);
    assert_eq!(f32_of(vtg.speed.as_knots()), 15.2);
    assert_eq!(vtg.mode, Mode::Autonomous);
}

fn assert_rmc_of_2006(result: Result<ParseResult, ErrorKind>) {
    let rmc: RMC = match result {
        Ok(ParseResult::RMC(Some(rmc))) => rmc,
        other => panic!("not an RMC record: {:?}", other),
    };
    assert_eq!(rmc.source, Source::GPS);
    assert_eq!(
        rmc.datetime.date,
        datetime::Date {
            day: 20,
            month: 9,
            year: 2006
        }
    );
    assert_same_time(&rmc.datetime.time, 12, 55, 4.049);
    assert_same_latitude(&rmc.latitude, &latitude(55.703981666666664));
    assert_same_longitude(&rmc.longitude, &longitude(37.69343833333333));
    assert_eq!(f32_of(rmc.speed.as_knots()), 0.06);
    assert_eq!(rmc.course.map(|c| f32_of(c.degrees)), Some(25.82));
    assert_eq!(rmc.magnetic, None);
    assert_eq!(rmc.mode, Mode::Autonomous);
}

#[test]
fn test_too_long_sentence() {
    let line = "$01234567890123456789012345678901234567890123456789012345678901234567890123456789";
    let mut caught_error = false;
    let mut parser = Parser::new();
    let mut iter = parser.parse_from_bytes(line.as_bytes());
    while let Some(result) = iter.next() {
        match result {
            Ok(_) => continue,
            Err(ErrorKind::BufferOverflow) => {
                assert_eq!(ErrorKind::BufferOverflow.message(), "NMEA sentence is too long!");
                caught_error = true;
                break;
            }
            Err(_) => panic!("Unexpected error caught in test!"),
        }
    }
    assert!(caught_error);
}

#[test]
fn test_correct_but_unsupported_source() {
    let mut p = Parser::new();
    let sentence = b"$LCVTG,089.0,T,,,15.2,N,,*67\r\n";
    let mut parsed = false;
    for b in sentence.iter() {
        let r = p.parse_from_byte(*b);
        if r.is_some() {
            assert_eq!(r.unwrap(), Err(ErrorKind::UnsupportedSource));
            assert_eq!(ErrorKind::UnsupportedSource.message(), "Source is not supported!");
            parsed = true;
            break;
        }
    }
    assert!(parsed);
}

#[test]
fn test_correct_but_unsupported_nmea_block() {
    let mut p = Parser::new();
    let sentence = b"$GPZZZ,,,,,,,,,*61\r\n";
    let mut parsed = false;
    for b in sentence.iter() {
        let r = p.parse_from_byte(*b);
        if r.is_some() {
            assert_eq!(r.unwrap(), Err(ErrorKind::UnsupportedSentence));
            assert_eq!(ErrorKind::UnsupportedSentence.message(), "Unsupported sentence type.");
            parsed = true;
            break;
        }
    }
    assert!(parsed);
}

#[test]
fn test_stream_slice() {
    let mut p = Parser::new();
    let sentence = b"0,T,,,15.2,N,,,A*12\r\n$GPVTG,089.0,T,,,15.2,N,,,A*12\r\n$GPVTG,089.0,T,,,15.2,N,,,A*12\r\n$GPVTG,089.0,T,";
    let mut parse_count = 0;
    for b in sentence.iter() {
        let r = p.parse_from_byte(*b);
        if r.is_some() {
            assert_vtg_089_15(r.unwrap());
            parse_count += 1;
        }
    }
    assert_eq!(parse_count, 2);
}

#[test]
fn test_correct_vtg() {
    let mut p = Parser::new();
    let sentence = b"$GPVTG,089.0,T,,,15.2,N,,,A*12\r\n";
    let mut parsed = false;
    for b in sentence.iter() {
        let r = p.parse_from_byte(*b);
        if r.is_some() {
            assert_vtg_089_15(r.unwrap());
            parsed = true;
            break;
        }
    }
    assert!(parsed);
}

#[test]
fn test_correct_rmc() {
    let mut p = Parser::new();
    let sentence = b"$GPRMC,125504.049,A,5542.2389,N,03741.6063,E,0.06,25.82,200906,,,A*56\r\n";
    let mut parsed = false;
    for b in sentence.iter() {
        let r = p.parse_from_byte(*b);
        if r.is_some() {
            assert_rmc_of_2006(r.unwrap());
            parsed = true;
            break;
        }
    }
    assert!(parsed);
}

#[test]
fn test_correct_gga() {
    let mut p = Parser::new();
    let sentence = b"$GPGGA,145659.00,5956.695396,N,03022.454999,E,2,07,0.6,9.0,M,18.0,M,,*62\r\n";
    let mut parsed = false;
    for b in sentence.iter() {
        let r = p.parse_from_byte(*b);
        if r.is_some() {
            let gga: GGA = match r.unwrap() {
                Ok(ParseResult::GGA(Some(gga))) => gga,
                other => panic!("not a GGA record: {:?}", other),
            };
            assert_eq!(gga.source, Source::GPS);
            assert_same_time(&gga.time, 14, 56, 59.0);
            assert_same_latitude(&gga.latitude, &latitude(59.944923266667));
            assert_same_longitude(&gga.longitude, &longitude(30.3742499833));
            assert_eq!(gga.gps_quality, GPSQuality::DGPS);
            assert_eq!(gga.sat_in_use, 7);
            assert_eq!(f32_of(gga.hdop), 0.6);
            assert_eq!(f32_of(gga.altitude.meters), 9.0);
            assert_eq!(gga.geoidal_separation.map(f32_of), Some(18.0));
            assert_eq!(gga.age_dgps, None);
            assert_eq!(gga.dgps_station_id, None);
            parsed = true;
            break;
        }
    }
    assert!(parsed);
}

#[test]
fn test_correct_rmc2() {
    let mut p = Parser::new();
    let sentence = b"$GPRMC,113650.0,A,5548.607,S,03739.387,W,000.01,255.6,210403,08.7,E*66\r\n";
    let mut parsed = false;
    for b in sentence.iter() {
        let r = p.parse_from_byte(*b);
        if r.is_some() {
            let rmc: RMC = match r.unwrap() {
                Ok(ParseResult::RMC(Some(rmc))) => rmc,
                other => panic!("not an RMC record: {:?}", other),
            };
            assert_eq!(rmc.source, Source::GPS);
            assert_eq!(
                rmc.datetime.date,
                datetime::Date {
                    day: 21,
                    month: 4,
                    year: 2003
                }
            );
            assert_same_time(&rmc.datetime.time, 11, 36, 50.0);
            assert_same_latitude(&rmc.latitude, &latitude(-55.810116666666666));
            assert_same_longitude(&rmc.longitude, &longitude(-37.65645));
            assert_eq!(f32_of(rmc.speed.as_knots()), 0.01);
            assert_eq!(rmc.course.map(|c| f32_of(c.degrees)), Some(255.6));
            // In single precision 255.6 - 8.7 comes out as 246.90001; the
            // exact difference is the neighbouring 246.9.
            let magnetic = f32_of(rmc.magnetic.unwrap().degrees);
            assert!((magnetic - 246.90001f32).abs() <= 246.90001f32 * f32::EPSILON);
            assert_eq!(
                rmc.magnetic,
                Some(coords::MagneticCourse::from(Decimal {
                    mantissa: 2469,
                    scale: 1
                }))
            );
            assert_eq!(rmc.mode, Mode::Autonomous);
            parsed = true;
            break;
        }
    }
    assert!(parsed);
}

#[test]
fn test_correct_gll() {
    let mut p = Parser::new();
    let b = b"$GPGLL,4916.45,N,12311.12,W,225444,A*31\r\n";
    {
        let mut iter = p.parse_from_bytes(&b[..]);
        let gll: GLL = match iter.next().unwrap() {
            Ok(ParseResult::GLL(Some(gll))) => gll,
            other => panic!("not a GLL record: {:?}", other),
        };
        assert_eq!(gll.source, Source::GPS);
        assert_same_time(&gll.time, 22, 54, 44.0);
        assert_same_latitude(&gll.latitude, &latitude(49.2741666667));
        assert_same_longitude(&gll.longitude, &longitude(-123.18533333334));
        assert_eq!(gll.mode, Mode::Autonomous);
    }
}

#[test]
fn test_parser_iterator() {
    let mut p = Parser::new();
    let b = b"$GPRMC,125504.049,A,5542.2389,N,03741.6063,E,0.06,25.82,200906,,,A*56\r\n";
    {
        let mut iter = p.parse_from_bytes(&b[..]);
        assert_rmc_of_2006(iter.next().unwrap());
    }
    let b1 = b"$GPRMC,125504.049,A,5542.2389,N";
    {
        let mut iter = p.parse_from_bytes(&b1[..]);
        assert!(iter.next().is_none());
    }
    let b2 = b",03741.6063,E,0.06,25.82,200906,,,";
    {
        let mut iter = p.parse_from_bytes(&b2[..]);
        assert!(iter.next().is_none());
    }
    let b3 = b"A*56\r\n";
    {
        let mut iter = p.parse_from_bytes(&b3[..]);
        assert_rmc_of_2006(iter.next().unwrap());
        assert!(iter.next().is_none());
    }
}
