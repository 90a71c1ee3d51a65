use nmea0183::filter::{is_code, Sentence, SentenceMask, Source, SourceMask};
use nmea0183::parser::Parser;
use nmea0183::ErrorKind;

const SOURCES: [Source; 6] = [
    Source::GPS,
    Source::GLONASS,
    Source::Gallileo,
    Source::Beidou,
    Source::GNSS,
    Source::MTK,
];

const SENTENCES: [Sentence; 7] = [
    Sentence::RMC,
    Sentence::VTG,
    Sentence::GGA,
    Sentence::GLL,
    Sentence::PMTK,
    Sentence::GSV,
    Sentence::GSA,
];

#[test]
fn test_source_bitor() {
    let s = Source::GLONASS | Source::GPS | Source::Beidou;
    assert!(s == (SourceMask::only(Source::GLONASS) | Source::GPS | Source::Beidou));
    for source in SOURCES {
        let member =
            source == Source::GLONASS || source == Source::GPS || source == Source::Beidou;
        assert_eq!(s.is_masked(source), !member);
    }
}

#[test]
fn test_sentence_bitor() {
    let s = Sentence::RMC | Sentence::VTG | Sentence::GGA;
    assert!(s == (SentenceMask::only(Sentence::RMC) | Sentence::VTG | Sentence::GGA));
    for sentence in SENTENCES {
        let member =
            sentence == Sentence::RMC || sentence == Sentence::VTG || sentence == Sentence::GGA;
        assert_eq!(s.is_masked(sentence), !member);
    }
}

#[test]
fn test_create_filtered_parser() {
    let _parser = Parser::new()
        .source_filter(Source::GPS | Source::GLONASS)
        .sentence_filter(Sentence::RMC | Sentence::GLL);
    let _parser = Parser::new()
        .source_only(Source::GPS)
        .sentence_only(Sentence::RMC);
}

#[test]
fn the_default_masks_admit_everything() {
    let sources = SourceMask::default();
    for source in SOURCES {
        assert!(!sources.is_masked(source));
    }
    let sentences = SentenceMask::default();
    for sentence in SENTENCES {
        assert!(!sentences.is_masked(sentence));
    }
}

#[test]
fn a_mask_of_one_admits_one() {
    for only in SOURCES {
        let mask = SourceMask::only(only);
        for source in SOURCES {
            assert_eq!(mask.is_masked(source), source != only);
        }
    }
    for only in SENTENCES {
        let mask = SentenceMask::only(only);
        for sentence in SENTENCES {
            assert_eq!(mask.is_masked(sentence), sentence != only);
        }
    }
}

#[test]
fn adding_to_a_mask_keeps_what_it_had() {
    for first in SOURCES {
        for second in SOURCES {
            let pair = first | second;
            let grown = pair | Source::GNSS;
            for source in SOURCES {
                assert_eq!(pair.is_masked(source), source != first && source != second);
                assert_eq!(
                    grown.is_masked(source),
                    source != first && source != second && source != Source::GNSS
                );
            }
            assert!(pair == (second | first));
        }
    }
    for first in SENTENCES {
        for second in SENTENCES {
            let pair = first | second;
            let grown = pair | Sentence::GSA;
            for sentence in SENTENCES {
                assert_eq!(pair.is_masked(sentence), sentence != first && sentence != second);
                assert_eq!(
                    grown.is_masked(sentence),
                    sentence != first && sentence != second && sentence != Sentence::GSA
                );
            }
        }
    }
}

#[test]
fn talkers_name_their_sources() {
    assert_eq!(Source::try_from(b"GPRMC"), Ok(Source::GPS));
    assert_eq!(Source::try_from(b"GLRMC"), Ok(Source::GLONASS));
    assert_eq!(Source::try_from(b"GARMC"), Ok(Source::Gallileo));
    assert_eq!(Source::try_from(b"BDRMC"), Ok(Source::Beidou));
    assert_eq!(Source::try_from(b"GNRMC"), Ok(Source::GNSS));
    assert_eq!(Source::try_from(b"PMTKSPF"), Ok(Source::MTK));
    assert_eq!(Source::try_from(b"GP"), Ok(Source::GPS));
    assert_eq!(Source::try_from(b"LCVTG"), Err(ErrorKind::UnsupportedSource));
    assert_eq!(Source::try_from(b"gpRMC"), Err(ErrorKind::UnsupportedSource));
    assert_eq!(Source::try_from(b"PGRMC"), Err(ErrorKind::UnsupportedSource));
}

#[test]
fn codes_name_their_sentences() {
    assert_eq!(Sentence::try_from(b"RMC"), Ok(Sentence::RMC));
    assert_eq!(Sentence::try_from(b"GGA"), Ok(Sentence::GGA));
    assert_eq!(Sentence::try_from(b"GLL"), Ok(Sentence::GLL));
    assert_eq!(Sentence::try_from(b"VTG"), Ok(Sentence::VTG));
    assert_eq!(Sentence::try_from(b"GSV"), Ok(Sentence::GSV));
    assert_eq!(Sentence::try_from(b"GSA"), Ok(Sentence::GSA));
    assert_eq!(Sentence::try_from(b"PMTK"), Ok(Sentence::PMTK));
    assert_eq!(Sentence::try_from(b"ZZZ"), Err(ErrorKind::UnsupportedSentence));
    assert_eq!(Sentence::try_from(b"RMCX"), Err(ErrorKind::UnsupportedSentence));
    assert_eq!(Sentence::try_from(b"RM"), Err(ErrorKind::UnsupportedSentence));
    assert_eq!(Sentence::try_from(b"PMT"), Err(ErrorKind::UnsupportedSentence));
    assert_eq!(Sentence::try_from(b"rmc"), Err(ErrorKind::UnsupportedSentence));
    assert_eq!(Sentence::try_from(b""), Err(ErrorKind::UnsupportedSentence));
}

#[test]
fn a_code_is_three_given_bytes() {
    assert!(is_code(b"RMC", b'R', b'M', b'C'));
    assert!(!is_code(b"RMCA", b'R', b'M', b'C'));
    assert!(!is_code(b"RM", b'R', b'M', b'C'));
    assert!(!is_code(b"RMD", b'R', b'M', b'C'));
    assert!(!is_code(b"XMC", b'R', b'M', b'C'));
    assert!(!is_code(b"RXC", b'R', b'M', b'C'));
}
