use nmea0183::decimal::Decimal;
use nmea0183::dispatch::{decode_sentence, is_ascii, ParseResult};
use nmea0183::filter::{Sentence, SentenceMask, Source, SourceMask};
use nmea0183::modes::Mode;
use nmea0183::mtk::{JammingStatus, PMTKSPF};
use nmea0183::parser::{parse_hex_halfbyte, Parser, ParserIterator};
use nmea0183::ErrorKind;

type Outcome = Result<ParseResult, ErrorKind>;

const VTG: &[u8] = b"$GPVTG,089.0,T,,,15.2,N,,,A*12\r\n";
const RMC: &[u8] =
    b"$GPRMC,125504.049,A,5542.2389,N,03741.6063,E,0.06,25.82,200906,,,A*56\r\n";
const GGA: &[u8] =
    b"$GPGGA,145659.00,5956.695396,N,03022.454999,E,2,07,0.6,9.0,M,18.0,M,,*62\r\n";

fn frame(payload: &[u8]) -> Vec<u8> {
    let sum = payload.iter().fold(0u8, |sum, b| sum ^ b);
    let mut bytes = vec![b'$'];
    bytes.extend_from_slice(payload);
    bytes.extend_from_slice(format!("*{:02X}\r\n", sum).as_bytes());
    bytes
}

fn one_by_one(parser: &mut Parser, input: &[u8]) -> Vec<Outcome> {
    let mut outcomes = Vec::new();
    for b in input {
        if let Some(outcome) = parser.parse_from_byte(*b) {
            outcomes.push(outcome);
        }
    }
    outcomes
}

fn is_vtg(outcome: &Outcome) -> bool {
    match outcome {
        Ok(ParseResult::VTG(Some(vtg))) => {
            vtg.source == Source::GPS
                && vtg.course.map(|c| c.degrees) == Some(Decimal { mantissa: 890, scale: 1 })
                && vtg.magnetic == None
                && vtg.speed.as_knots() == Decimal { mantissa: 152, scale: 1 }
                && vtg.mode == Mode::Autonomous
        }
        _ => false,
    }
}

#[test]
fn hexadecimal_digits() {
    assert_eq!(parse_hex_halfbyte(b'0'), Ok(0));
    assert_eq!(parse_hex_halfbyte(b'9'), Ok(9));
    assert_eq!(parse_hex_halfbyte(b'A'), Ok(10));
    assert_eq!(parse_hex_halfbyte(b'F'), Ok(15));
    assert_eq!(parse_hex_halfbyte(b'G'), Err(ErrorKind::InvalidChecksumDigit));
    assert_eq!(parse_hex_halfbyte(b'a'), Err(ErrorKind::InvalidChecksumDigit));
    assert_eq!(parse_hex_halfbyte(b'/'), Err(ErrorKind::InvalidChecksumDigit));
    assert_eq!(parse_hex_halfbyte(b':'), Err(ErrorKind::InvalidChecksumDigit));
    assert_eq!(parse_hex_halfbyte(b'@'), Err(ErrorKind::InvalidChecksumDigit));
}

#[test]
fn text_is_ascii_below_128() {
    assert!(is_ascii(b""));
    assert!(is_ascii(b"GPVTG,089.0"));
    assert!(is_ascii(&[0, 127]));
    assert!(!is_ascii(&[128]));
    assert!(!is_ascii(&[b'G', b'P', 0xC3, 0xA9]));
}

#[test]
fn a_stream_gives_the_same_outcomes_however_it_is_split() {
    let mut stream = b"junk\r\n".to_vec();
    stream.extend_from_slice(VTG);
    stream.extend_from_slice(b"$GPVTG,089.0,T,,,15.2,N,,,A*13\r\n");
    stream.extend_from_slice(RMC);
    stream.extend_from_slice(b"$LCVTG,089.0,T,,,15.2,N,,*67\r\n$GPZZZ,,,,,,,,,*61\r\n");
    stream.extend_from_slice(GGA);
    stream.extend_from_slice(b"$GPVTG,089.0,T,");
    let whole = Parser::new().collect_from_bytes(&stream);
    assert_eq!(whole.len(), 6);
    assert!(is_vtg(&whole[0]));
    assert_eq!(whole[1], Err(ErrorKind::ChecksumMismatch));
    assert!(matches!(whole[2], Ok(ParseResult::RMC(Some(_)))));
    assert_eq!(whole[3], Err(ErrorKind::UnsupportedSource));
    assert_eq!(whole[4], Err(ErrorKind::UnsupportedSentence));
    assert!(matches!(whole[5], Ok(ParseResult::GGA(Some(_)))));
    assert_eq!(one_by_one(&mut Parser::new(), &stream), whole);
    for cut in 0..=stream.len() {
        let mut parser = Parser::new();
        let mut outcomes = parser.collect_from_bytes(&stream[..cut]);
        outcomes.extend(parser.collect_from_bytes(&stream[cut..]));
        assert_eq!(outcomes, whole);
    }
    for first in [0, 1, 7, 39, 40, 41, 100] {
        for second in [first, first + 1, first + 33, stream.len()] {
            let mut parser = Parser::new();
            let mut outcomes = parser.collect_from_bytes(&stream[..first]);
            outcomes.extend(one_by_one(&mut parser, &stream[first..second]));
            outcomes.extend(parser.collect_from_bytes(&stream[second..]));
            assert_eq!(outcomes, whole);
        }
    }
}

#[test]
fn a_sentence_in_three_pieces_after_garbage_comes_out_once() {
    let mut parser = Parser::new();
    let mut outcomes = parser.collect_from_bytes(b"0,T,,,15.2,N,,,A*12\r\n$GPVTG,089");
    outcomes.extend(parser.collect_from_bytes(b".0,T,,,15.2,N"));
    outcomes.extend(parser.collect_from_bytes(b",,,A*12\r\n"));
    assert_eq!(outcomes.len(), 1);
    assert!(is_vtg(&outcomes[0]));
    assert_eq!(parser.collect_from_bytes(b""), vec![]);
    assert_eq!(parser.collect_from_bytes(b"\r\n\r\n"), vec![]);
}

#[test]
fn a_corrupted_checksum_is_a_mismatch() {
    for high in b"0123456789ABCDEF" {
        for low in b"0123456789ABCDEF" {
            let mut bytes = b"$GPVTG,089.0,T,,,15.2,N,,,A*".to_vec();
            bytes.push(*high);
            bytes.push(*low);
            bytes.extend_from_slice(b"\r\n");
            let mut parser = Parser::new();
            let outcomes = parser.collect_from_bytes(&bytes);
            assert_eq!(outcomes.len(), 1);
            if (*high, *low) == (b'1', b'2') {
                assert!(is_vtg(&outcomes[0]));
            } else {
                assert_eq!(outcomes[0], Err(ErrorKind::ChecksumMismatch));
            }
            let next = parser.collect_from_bytes(VTG);
            assert_eq!(next.len(), 1);
            assert!(is_vtg(&next[0]));
        }
    }
    let mut corrupted = VTG.to_vec();
    corrupted[10] = b'1';
    assert_eq!(
        Parser::new().collect_from_bytes(&corrupted),
        vec![Err(ErrorKind::ChecksumMismatch)]
    );
}

#[test]
fn a_payload_that_is_too_long_overflows_and_the_next_frame_is_read() {
    let mut stream = vec![b'$'];
    stream.extend_from_slice(&[b'7'; 79]);
    let mut parser = Parser::new();
    assert_eq!(parser.collect_from_bytes(&stream), vec![]);
    assert_eq!(parser.parse_from_byte(b'7'), Some(Err(ErrorKind::BufferOverflow)));
    assert_eq!(parser.collect_from_bytes(&[b'7'; 300]), vec![]);
    let next = parser.collect_from_bytes(VTG);
    assert_eq!(next.len(), 1);
    assert!(is_vtg(&next[0]));

    let mut parser = Parser::new();
    assert_eq!(parser.collect_from_bytes(&stream), vec![]);
    let after_full = parser.collect_from_bytes(b"*");
    assert_eq!(after_full, vec![]);

    let mut lenient = Parser::lenient();
    stream.extend_from_slice(&[b'7'; 41]);
    assert_eq!(lenient.collect_from_bytes(&stream), vec![]);
    assert_eq!(lenient.parse_from_byte(b'7'), Some(Err(ErrorKind::BufferOverflow)));
    let next = lenient.collect_from_bytes(VTG);
    assert_eq!(next.len(), 1);
    assert!(is_vtg(&next[0]));
}

#[test]
fn a_lenient_parser_takes_longer_payloads() {
    let mut payload = b"GPVTG,089.0,T,,,15.2,N,,,A".to_vec();
    payload.extend_from_slice(&[b','; 54]);
    assert_eq!(payload.len(), 80);
    let bytes = frame(&payload);
    assert_eq!(
        Parser::new().collect_from_bytes(&bytes),
        vec![Err(ErrorKind::BufferOverflow)]
    );
    let outcomes = Parser::lenient().collect_from_bytes(&bytes);
    assert_eq!(outcomes.len(), 1);
    assert!(is_vtg(&outcomes[0]));
    payload.extend_from_slice(&[b','; 40]);
    assert_eq!(payload.len(), 120);
    let outcomes = Parser::lenient().collect_from_bytes(&frame(&payload));
    assert_eq!(outcomes.len(), 1);
    assert!(is_vtg(&outcomes[0]));
    payload.push(b',');
    assert_eq!(
        Parser::lenient().collect_from_bytes(&frame(&payload)),
        vec![Err(ErrorKind::BufferOverflow)]
    );
    let mut exact = b"GPVTG,089.0,T,,,15.2,N,,,A".to_vec();
    exact.extend_from_slice(&[b','; 53]);
    assert_eq!(exact.len(), 79);
    let outcomes = Parser::new().collect_from_bytes(&frame(&exact));
    assert_eq!(outcomes.len(), 1);
    assert!(is_vtg(&outcomes[0]));
}

#[test]
fn every_framing_error_leaves_the_parser_ready() {
    let broken: [(&[u8], ErrorKind); 8] = [
        (b"$GPVTG,089.0,T,,,15.2,N,,,A*x", ErrorKind::InvalidChecksumDigit),
        (b"$GPVTG,089.0,T,,,15.2,N,,,A*1x", ErrorKind::InvalidChecksumDigit),
        (b"$GPVTG,089.0,T,,,15.2,N,,,A*1a", ErrorKind::InvalidChecksumDigit),
        (b"$GPVTG,089.0,T,,,15.2,N,,,A*13", ErrorKind::ChecksumMismatch),
        (b"$GPVTG,089.0,T,,,15.2,N,,,A*12\n", ErrorKind::FrameFormatError),
        (b"$GPVTG,089.0,T,,,15.2,N,,,A*12\r\r", ErrorKind::FrameFormatError),
        (b"$GPVTG,089.0,T,,,15.2,N,,,A*12$", ErrorKind::FrameFormatError),
        (b"$LCVTG,089.0,T,,,15.2,N,,*67\r\n", ErrorKind::UnsupportedSource),
    ];
    for (bytes, error) in broken {
        let mut parser = Parser::new();
        assert_eq!(parser.collect_from_bytes(bytes), vec![Err(error)]);
        let next = parser.collect_from_bytes(VTG);
        assert_eq!(next.len(), 1);
        assert!(is_vtg(&next[0]));
    }
}

#[test]
fn a_dollar_in_the_payload_is_payload() {
    let outcomes = Parser::new().collect_from_bytes(b"$GPV$GPVTG,089.0,T,,,15.2,N,,,A*12\r\n");
    assert_eq!(outcomes, vec![Err(ErrorKind::ChecksumMismatch)]);
    let outcomes = Parser::new().collect_from_bytes(&frame(b"GPVTG,089.0,T,,,15.2,N,$,,A"));
    assert_eq!(outcomes.len(), 1);
    assert!(is_vtg(&outcomes[0]));
}

#[test]
fn stale_bytes_do_not_leak_into_the_next_sentence() {
    let mut parser = Parser::new();
    assert_eq!(
        parser.collect_from_bytes(b"$GPVTG,123.4,T,056.7,M,99.9,N,88.8,K,D*00\r\n"),
        vec![Err(ErrorKind::ChecksumMismatch)]
    );
    let outcomes = parser.collect_from_bytes(&frame(b"GPVTG,,,,,1,"));
    assert_eq!(outcomes, vec![Err(ErrorKind::EmptyModeField)]);
    let outcomes = parser.collect_from_bytes(&frame(b"GPVTG"));
    assert_eq!(outcomes, vec![Err(ErrorKind::EmptyModeField)]);
    let outcomes = parser.collect_from_bytes(&frame(b""));
    assert_eq!(outcomes, vec![Err(ErrorKind::SentenceTooShort)]);
}

#[test]
fn sentences_of_unknown_origin_or_kind() {
    let all = SourceMask::default();
    let any = SentenceMask::default();
    assert_eq!(decode_sentence(b"LCVTG,089.0,T,,,15.2,N,,", &all, &any), Err(ErrorKind::UnsupportedSource));
    assert_eq!(decode_sentence(b"LCZZZ", &all, &any), Err(ErrorKind::UnsupportedSource));
    assert_eq!(decode_sentence(b"GPZZZ,,,,,,,,,", &all, &any), Err(ErrorKind::UnsupportedSentence));
    assert_eq!(decode_sentence(b"GPPMTK", &all, &any), Err(ErrorKind::UnsupportedSentence));
    assert_eq!(decode_sentence(b"PMRMC,", &all, &any), Err(ErrorKind::UnsupportedSentence));
    assert_eq!(decode_sentence(b"PMTKSPG,1", &all, &any), Err(ErrorKind::UnsupportedSentence));
    assert_eq!(decode_sentence(b"GPVT", &all, &any), Err(ErrorKind::SentenceTooShort));
    assert_eq!(decode_sentence(b"", &all, &any), Err(ErrorKind::SentenceTooShort));
    assert_eq!(decode_sentence(b",GPVTG", &all, &any), Err(ErrorKind::SentenceTooShort));
    assert_eq!(decode_sentence(b"LC", &all, &any), Err(ErrorKind::SentenceTooShort));
    assert_eq!(decode_sentence(b"PMTKS,1", &all, &any), Err(ErrorKind::SentenceTooShort));
    assert_eq!(decode_sentence(b"PMTKSP,1", &all, &any), Err(ErrorKind::SentenceTooShort));
    assert_eq!(
        decode_sentence(&[b'G', b'P', b'V', b'T', b'G', b',', 0xFF], &all, &any),
        Err(ErrorKind::FrameFormatError)
    );
    assert_eq!(
        decode_sentence(&[0x80, b'C', b'V', b'T', b'G'], &all, &any),
        Err(ErrorKind::FrameFormatError)
    );
    for kind in [&b"GPRMC"[..], b"GPGGA", b"GPGLL", b"GPVTG", b"GPGSV", b"GPGSA", b"PMTKSPF"] {
        let mut parser = Parser::new();
        let outcomes = parser.collect_from_bytes(&frame(kind));
        assert_eq!(outcomes.len(), 1);
        let next = parser.collect_from_bytes(VTG);
        assert_eq!(next.len(), 1);
        assert!(is_vtg(&next[0]));
    }
}

#[test]
fn the_code_may_be_followed_by_more_letters() {
    let all = SourceMask::default();
    let any = SentenceMask::default();
    assert!(matches!(
        decode_sentence(b"GPVTGX,089.0,T,,,15.2,N,,,A", &all, &any),
        Ok(Some(ParseResult::VTG(Some(_))))
    ));
    assert_eq!(
        decode_sentence(b"PMTKSPFX,3", &all, &any),
        Ok(Some(ParseResult::PMTK(Some(PMTKSPF {
            source: Source::MTK,
            jamming_status: JammingStatus::Critical
        }))))
    );
}

#[test]
fn every_kind_is_routed_to_its_decoder() {
    let all = SourceMask::default();
    let any = SentenceMask::default();
    assert_eq!(decode_sentence(b"GPRMC,,V,,,,,,,,,,N", &all, &any), Ok(Some(ParseResult::RMC(None))));
    assert_eq!(decode_sentence(b"GPGGA,,,,,,,,,,,,,,", &all, &any), Ok(Some(ParseResult::GGA(None))));
    assert_eq!(decode_sentence(b"GPGLL,,,,,,V,N", &all, &any), Ok(Some(ParseResult::GLL(None))));
    assert_eq!(decode_sentence(b"GPVTG,,,,,,,,,N", &all, &any), Ok(Some(ParseResult::VTG(None))));
    assert_eq!(decode_sentence(b"GPGSV,,,", &all, &any), Ok(Some(ParseResult::GSV(None))));
    assert_eq!(decode_sentence(b"GPGSA,A,,,,,,,,,,,,,,,,", &all, &any), Ok(Some(ParseResult::GSA(None))));
    assert_eq!(decode_sentence(b"PMTKSPF,", &all, &any), Ok(Some(ParseResult::PMTK(None))));
    assert_eq!(
        decode_sentence(b"PMTKSPF,1", &all, &any),
        Ok(Some(ParseResult::PMTK(Some(PMTKSPF {
            source: Source::MTK,
            jamming_status: JammingStatus::Healthy
        }))))
    );
    assert!(matches!(
        decode_sentence(b"BDGSV,1,1,01,101,45,120,30", &all, &any),
        Ok(Some(ParseResult::GSV(Some(_))))
    ));
    assert_eq!(
        decode_sentence(b"BDGSV,1,1,01,99,45,120,30", &all, &any),
        Err(ErrorKind::PrnOutOfRange)
    );
    assert!(matches!(
        decode_sentence(b"GNGSA,A,3,04,05,,,,,,,,,,,2.5,1.3,2.1", &all, &any),
        Ok(Some(ParseResult::GSA(Some(_))))
    ));
}

#[test]
fn a_sentence_that_is_filtered_out_has_no_outcome() {
    let any = SentenceMask::default();
    let all = SourceMask::default();
    let gps = SourceMask::only(Source::GPS);
    let rmc = SentenceMask::only(Sentence::RMC);
    assert_eq!(decode_sentence(b"GLVTG,089.0,T,,,15.2,N,,,A", &gps, &any), Ok(None));
    assert_eq!(decode_sentence(b"GLZZZ,", &gps, &any), Ok(None));
    assert_eq!(decode_sentence(b"GLVTG,x", &gps, &any), Ok(None));
    assert_eq!(decode_sentence(b"GPVTG,089.0,T,,,15.2,N,,,A", &all, &rmc), Ok(None));
    assert_eq!(decode_sentence(b"GPVTG,x", &all, &rmc), Ok(None));
    assert_eq!(decode_sentence(b"GPZZZ,", &all, &rmc), Err(ErrorKind::UnsupportedSentence));
    assert_eq!(decode_sentence(b"LCRMC,", &gps, &rmc), Err(ErrorKind::UnsupportedSource));
    assert_eq!(decode_sentence(b"GPRMC,,V,,,,,,,,,,N", &gps, &rmc), Ok(Some(ParseResult::RMC(None))));

    let mut stream = VTG.to_vec();
    stream.extend_from_slice(RMC);
    stream.extend_from_slice(&frame(b"GLRMC,,V,,,,,,,,,,N"));
    stream.extend_from_slice(GGA);
    let outcomes = Parser::new().collect_from_bytes(&stream);
    assert_eq!(outcomes.len(), 4);
    let outcomes = Parser::new().source_only(Source::GLONASS).collect_from_bytes(&stream);
    assert_eq!(outcomes, vec![Ok(ParseResult::RMC(None))]);
    let outcomes = Parser::new().sentence_only(Sentence::GGA).collect_from_bytes(&stream);
    assert_eq!(outcomes.len(), 1);
    assert!(matches!(outcomes[0], Ok(ParseResult::GGA(Some(_)))));
    let outcomes = Parser::new()
        .source_filter(Source::GPS | Source::Gallileo)
        .sentence_filter(Sentence::RMC | Sentence::GGA)
        .collect_from_bytes(&stream);
    assert_eq!(outcomes.len(), 2);
    assert!(matches!(outcomes[0], Ok(ParseResult::RMC(Some(_)))));
    assert!(matches!(outcomes[1], Ok(ParseResult::GGA(Some(_)))));
    let outcomes = Parser::new()
        .source_only(Source::GPS)
        .source_only(Source::Beidou)
        .collect_from_bytes(&stream);
    assert_eq!(outcomes, vec![]);
}

#[test]
fn every_error_has_its_message() {
    let kinds = [
        ErrorKind::BufferOverflow,
        ErrorKind::InvalidChecksumDigit,
        ErrorKind::ChecksumMismatch,
        ErrorKind::FrameFormatError,
        ErrorKind::UnsupportedSource,
        ErrorKind::UnsupportedSentence,
        ErrorKind::SentenceTooShort,
        ErrorKind::FieldFormatError,
        ErrorKind::InconsistentCoordinateFields,
        ErrorKind::AsymmetricDateTime,
        ErrorKind::PrnOutOfRange,
        ErrorKind::InvalidModeCharacter,
        ErrorKind::EmptyModeField,
    ];
    for (i, a) in kinds.iter().enumerate() {
        assert!(!a.message().is_empty());
        for b in &kinds[i + 1..] {
            assert_ne!(a.message(), b.message());
        }
    }
    assert_eq!(ErrorKind::ChecksumMismatch.message(), "Checksum error!");
    assert_eq!(ErrorKind::FrameFormatError.message(), "NMEA format error!");
    assert_eq!(ErrorKind::InvalidChecksumDigit.message(), "Invalid HEX character.");
}

#[test]
fn outcomes_are_worked_out_when_asked_for() {
    let mut stream = VTG.to_vec();
    stream.extend_from_slice(b"$GPVTG,089.0,T,,,15.2,N,,,A*13\r\n");
    stream.extend_from_slice(VTG);
    stream.extend_from_slice(b"$GPVTG,");
    let mut parser = Parser::new();
    let mut iter = parser.parse_from_bytes(&stream);
    assert_eq!(iter.pos, 0);
    assert!(is_vtg(&iter.next().unwrap()));
    assert_eq!(iter.pos, VTG.len());
    assert_eq!(iter.next(), Some(Err(ErrorKind::ChecksumMismatch)));
    assert_eq!(iter.pos, 2 * VTG.len() - 2);
    assert!(is_vtg(&iter.next().unwrap()));
    assert_eq!(iter.pos, 3 * VTG.len());
    assert_eq!(iter.next(), None);
    assert_eq!(iter.pos, stream.len());
    assert_eq!(iter.next(), None);
    let rest = parser.collect_from_bytes(b"089.0,T,,,15.2,N,,,A*12\r\n");
    assert_eq!(rest.len(), 1);
    assert!(is_vtg(&rest[0]));
}

#[test]
fn an_iterator_that_is_let_go_leaves_the_rest_unread() {
    let mut stream = VTG.to_vec();
    stream.extend_from_slice(b"$GPVTG,089.0,T,,,15.2,N,,,A*13\r\n");
    let mut parser = Parser::new();
    {
        let mut iter = ParserIterator::new(&mut parser, &stream);
        assert!(is_vtg(&iter.next().unwrap()));
    }
    assert_eq!(parser.collect_from_bytes(&stream[VTG.len()..]), vec![Err(ErrorKind::ChecksumMismatch)]);
    let mut iter = ParserIterator { parser: &mut parser, input: VTG, pos: VTG.len() + 5 };
    assert_eq!(iter.next(), None);
}

#[test]
fn outcomes_one_at_a_time_are_those_of_the_whole() {
    let mut stream = b"junk\r\n".to_vec();
    stream.extend_from_slice(VTG);
    stream.extend_from_slice(b"$GPVTG,089.0,T,,,15.2,N,,,A*13\r\n$$$*\r");
    stream.extend_from_slice(RMC);
    stream.extend_from_slice(GGA);
    stream.extend_from_slice(b"$GPVTG,089.0,T,");
    let whole = Parser::new().collect_from_bytes(&stream);
    assert_eq!(whole.len(), 5);
    let mut parser = Parser::new();
    let mut iter = parser.parse_from_bytes(&stream);
    let mut lazy = Vec::new();
    while let Some(outcome) = iter.next() {
        lazy.push(outcome);
    }
    assert_eq!(lazy, whole);
}
