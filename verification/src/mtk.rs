//! MediaTek's proprietary packets.

use crate::common::token_view;
use crate::error::ErrorKind;
use crate::fields::{field_at, is_byte, lemma_fields_after_zero, Fields};
use crate::filter::{is_code, Source, LETTER_F, LETTER_P};
use crate::gsa::{DIGIT_ONE, DIGIT_THREE, DIGIT_TWO};
use crate::modes::LETTER_S;
use vstd::prelude::*;

verus! {

/// MTK NMEA packet type
#[derive(Debug, Clone, Copy, PartialEq, Eq, Structural)]
pub enum MTKPacketType {
    /// Related to Spoofing and Jamming detection. Written `SPF`.
    SPF,
}

impl MTKPacketType {
    /// What `try_from` returns.
    pub open spec fn spec_try_from(from: Seq<u8>) -> Result<MTKPacketType, ErrorKind> {
        if from == seq![LETTER_S, LETTER_P, LETTER_F] {
            Ok(MTKPacketType::SPF)
        } else {
            Err(ErrorKind::UnsupportedSentence)
        }
    }

    /// The packet type that the three letters `from` name, or
    /// `UnsupportedSentence` if they name none.
    pub fn try_from(from: &[u8]) -> (r: Result<MTKPacketType, ErrorKind>)
        ensures
            r == MTKPacketType::spec_try_from(from@),
    {
        if is_code(from, LETTER_S, LETTER_P, LETTER_F) {
            Ok(MTKPacketType::SPF)
        } else {
            Err(ErrorKind::UnsupportedSentence)
        }
    }
}

/// Related to Spoofing and Jamming detection.
#[derive(Debug, Clone, Copy, PartialEq, Eq, Structural)]
pub struct PMTKSPF {
    /// Navigational system.
    pub source: Source,
    /// GPS Jamming status
    pub jamming_status: JammingStatus,
}

impl PMTKSPF {
    /// What `parse` returns for the tokens that follow the sentence's
    /// leading token.
    pub open spec fn spec_parse(source: Source, tokens: Seq<Seq<u8>>) -> Result<
        Option<PMTKSPF>,
        ErrorKind,
    > {
        match JammingStatus::spec_parse(field_at(tokens, 0)) {
            Ok(Some(jamming_status)) => Ok(Some(PMTKSPF { source, jamming_status })),
            Ok(None) => Ok(None),
            Err(e) => Err(e),
        }
    }

    /// Decodes the one field of a PMTKSPF packet, the jamming status.
    ///
    /// A malformed status is an error; with the status missing or empty
    /// there is no record.
    pub fn parse(source: Source, fields: Fields) -> (r: Result<Option<PMTKSPF>, ErrorKind>)
        ensures
            r == PMTKSPF::spec_parse(source, fields@),
    {
        let ghost tokens = fields@;
        let mut cursor = fields;
        proof {
            lemma_fields_after_zero(tokens);
        }
        match JammingStatus::parse(cursor.next())? {
            Some(jamming_status) => Ok(Some(PMTKSPF { source, jamming_status })),
            None => Ok(None),
        }
    }
}

/// Status of gps Jamming
#[derive(Debug, Clone, Copy, PartialEq, Eq, Structural)]
pub enum JammingStatus {
    /// No Jamming. Written `1`.
    Healthy,
    /// Instantaneous jamming. Written `2`.
    Warning,
    /// Continuous jamming. Written `3`.
    Critical,
}

impl JammingStatus {
    /// What `parse` returns.
    pub open spec fn spec_parse(input: Option<Seq<u8>>) -> Result<
        Option<JammingStatus>,
        ErrorKind,
    > {
        match input {
            None => Ok(None),
            Some(s) => if s.len() == 0 {
                Ok(None)
            } else if s == seq![DIGIT_ONE] {
                Ok(Some(JammingStatus::Healthy))
            } else if s == seq![DIGIT_TWO] {
                Ok(Some(JammingStatus::Warning))
            } else if s == seq![DIGIT_THREE] {
                Ok(Some(JammingStatus::Critical))
            } else {
                Err(ErrorKind::FieldFormatError)
            },
        }
    }

    /// Decodes a jamming status field: `1`, `2` or `3`. A missing or empty
    /// token is no status, and any other text a format error.
    pub fn parse(input: Option<&[u8]>) -> (r: Result<Option<JammingStatus>, ErrorKind>)
        ensures
            r == JammingStatus::spec_parse(token_view(input)),
    {
        match input {
            None => Ok(None),
            Some(s) => {
                if s.len() == 0 {
                    Ok(None)
                } else if is_byte(s, DIGIT_ONE) {
                    Ok(Some(JammingStatus::Healthy))
                } else if is_byte(s, DIGIT_TWO) {
                    Ok(Some(JammingStatus::Warning))
                } else if is_byte(s, DIGIT_THREE) {
                    Ok(Some(JammingStatus::Critical))
                } else {
                    Err(ErrorKind::FieldFormatError)
                }
            },
        }
    }
}

} // verus!
