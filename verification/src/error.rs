//! The closed set of reasons for which a frame is rejected.

use vstd::prelude::*;

verus! {

/// Why a frame was discarded. None of these is fatal to the parser: after
/// reporting one it waits for the next `$`.
#[derive(Debug, Clone, Copy, PartialEq, Eq, Structural)]
pub enum ErrorKind {
    /// The payload is longer than the parser's capacity.
    BufferOverflow,
    /// A byte after `*` is not an upper-case hexadecimal digit.
    InvalidChecksumDigit,
    /// The transmitted checksum differs from the XOR of the payload.
    ChecksumMismatch,
    /// The frame is not terminated by CR LF, or holds a byte outside ASCII.
    FrameFormatError,
    /// The talker identifier is not a known navigation source.
    UnsupportedSource,
    /// The sentence code is not one this library decodes.
    UnsupportedSentence,
    /// The leading token is too short to hold talker and sentence code.
    SentenceTooShort,
    /// A field is present and does not follow its grammar.
    FieldFormatError,
    /// Only one token of a coordinate and hemisphere pair was transmitted.
    InconsistentCoordinateFields,
    /// A date came without a time, or a time without a date.
    AsymmetricDateTime,
    /// A satellite number lies below its constellation's offset.
    PrnOutOfRange,
    /// The mode field holds something other than one of the mode letters.
    InvalidModeCharacter,
    /// The mode field is empty, or missing where it is mandatory.
    EmptyModeField,
}

impl ErrorKind {
    /// Whether the error was raised by the framer, before any field was read.
    pub open spec fn is_framing(self) -> bool {
        self == ErrorKind::BufferOverflow || self == ErrorKind::InvalidChecksumDigit
            || self == ErrorKind::ChecksumMismatch || self == ErrorKind::FrameFormatError
    }

    /// A short English description of the error.
    pub fn message(&self) -> (text: &'static str)
        ensures
            text@ == self.spec_message()@,
    {
        match self {
            ErrorKind::BufferOverflow => "NMEA sentence is too long!",
            ErrorKind::InvalidChecksumDigit => "Invalid HEX character.",
            ErrorKind::ChecksumMismatch => "Checksum error!",
            ErrorKind::FrameFormatError => "NMEA format error!",
            ErrorKind::UnsupportedSource => "Source is not supported!",
            ErrorKind::UnsupportedSentence => "Unsupported sentence type.",
            ErrorKind::SentenceTooShort => "Sentence field is too small. Must be 5 chars at least!",
            ErrorKind::FieldFormatError => "Wrong field format",
            ErrorKind::InconsistentCoordinateFields => "Coordinate and hemisphere must come together",
            ErrorKind::AsymmetricDateTime => "Date or time is None, should be Some both",
            ErrorKind::PrnOutOfRange => "Satellite number is out of range",
            ErrorKind::InvalidModeCharacter => "Wrong mode character!",
            ErrorKind::EmptyModeField => "Mode should not be empty string!",
        }
    }

    /// The text that `message` returns.
    pub open spec fn spec_message(self) -> &'static str {
        match self {
            ErrorKind::BufferOverflow => "NMEA sentence is too long!",
            ErrorKind::InvalidChecksumDigit => "Invalid HEX character.",
            ErrorKind::ChecksumMismatch => "Checksum error!",
            ErrorKind::FrameFormatError => "NMEA format error!",
            ErrorKind::UnsupportedSource => "Source is not supported!",
            ErrorKind::UnsupportedSentence => "Unsupported sentence type.",
            ErrorKind::SentenceTooShort => "Sentence field is too small. Must be 5 chars at least!",
            ErrorKind::FieldFormatError => "Wrong field format",
            ErrorKind::InconsistentCoordinateFields => "Coordinate and hemisphere must come together",
            ErrorKind::AsymmetricDateTime => "Date or time is None, should be Some both",
            ErrorKind::PrnOutOfRange => "Satellite number is out of range",
            ErrorKind::InvalidModeCharacter => "Wrong mode character!",
            ErrorKind::EmptyModeField => "Mode should not be empty string!",
        }
    }
}

} // verus!
