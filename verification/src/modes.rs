//! The receiver's mode of operation, and the older valid/not-valid status.

use crate::common::token_view;
use crate::error::ErrorKind;
use vstd::prelude::*;

verus! {

/// ASCII `A`.
pub const LETTER_A: u8 = 0x41;

/// ASCII `D`.
pub const LETTER_D: u8 = 0x44;

/// ASCII `E`.
pub const LETTER_E: u8 = 0x45;

/// ASCII `M`.
pub const LETTER_M: u8 = 0x4D;

/// ASCII `N`.
pub const LETTER_N: u8 = 0x4E;

/// ASCII `S`.
pub const LETTER_S: u8 = 0x53;

/// ASCII `V`.
pub const LETTER_V: u8 = 0x56;

/// ASCII `W`.
pub const LETTER_W: u8 = 0x57;

/// Whether the receiver holds its data for valid.
#[derive(Debug, Clone, Copy, PartialEq, Eq, Structural)]
pub enum Status {
    /// Written `A`.
    Valid,
    /// Written `V`.
    NotValid,
}

impl Status {
    /// What `from_str` returns for the token `st`.
    pub open spec fn spec_from_str(st: Seq<u8>) -> Result<Status, ErrorKind> {
        if st == seq![LETTER_A] {
            Ok(Status::Valid)
        } else if st == seq![LETTER_V] {
            Ok(Status::NotValid)
        } else {
            Err(ErrorKind::FieldFormatError)
        }
    }

    /// Decodes a status token: `A` is valid, `V` is not valid, and anything
    /// else, the empty token too, is a format error.
    pub fn from_str(st: &[u8]) -> (r: Result<Status, ErrorKind>)
        ensures
            r == Status::spec_from_str(st@),
    {
        if st.len() != 1 {
            proof {
                assert(seq![LETTER_A].len() == 1 && seq![LETTER_V].len() == 1);
            }
            return Err(ErrorKind::FieldFormatError);
        }
        let b: u8 = st[0];
        proof {
            assert(seq![LETTER_A][0] == LETTER_A && seq![LETTER_V][0] == LETTER_V);
            assert(st@ =~= seq![b]);
        }
        if b == LETTER_A {
            Ok(Status::Valid)
        } else if b == LETTER_V {
            Ok(Status::NotValid)
        } else {
            Err(ErrorKind::FieldFormatError)
        }
    }

    /// What `from_field` returns.
    pub open spec fn spec_from_field(input: Option<Seq<u8>>) -> Result<Status, ErrorKind> {
        match input {
            None => Err(ErrorKind::FieldFormatError),
            Some(st) => Status::spec_from_str(st),
        }
    }

    /// Decodes a mandatory status field: as `from_str`, and a missing token
    /// is a format error too.
    pub fn from_field(input: Option<&[u8]>) -> (r: Result<Status, ErrorKind>)
        ensures
            r == Status::spec_from_field(token_view(input)),
    {
        match input {
            None => Err(ErrorKind::FieldFormatError),
            Some(st) => Status::from_str(st),
        }
    }

    /// The mode that stands in for a missing mode field.
    pub open spec fn fallback_mode(self) -> Mode {
        match self {
            Status::Valid => Mode::Autonomous,
            Status::NotValid => Mode::NotValid,
        }
    }
}

/// Receiver mode of operation.
#[derive(Debug, Clone, Copy, PartialEq, Eq, Structural)]
pub enum Mode {
    /// Autonomous mode without any external correction. Written `A`.
    Autonomous,
    /// Differential correction used. Written `D`.
    Differential,
    /// Estimated position from previous data and movement model. Written `E`.
    Estimated,
    /// Set by operator. Written `M`.
    Manual,
    /// Simulation mode. Written `S`.
    Simulator,
    /// Completely invalid state. Position data, if present, could not be
    /// used. Written `N`.
    NotValid,
}

impl Mode {
    /// The mode that the letter `b` stands for, if any.
    pub open spec fn from_letter(b: u8) -> Option<Mode> {
        if b == LETTER_A {
            Some(Mode::Autonomous)
        } else if b == LETTER_D {
            Some(Mode::Differential)
        } else if b == LETTER_E {
            Some(Mode::Estimated)
        } else if b == LETTER_M {
            Some(Mode::Manual)
        } else if b == LETTER_S {
            Some(Mode::Simulator)
        } else if b == LETTER_N {
            Some(Mode::NotValid)
        } else {
            None
        }
    }

    /// What a mode token that was transmitted decodes to.
    pub open spec fn spec_from_token(s: Seq<u8>) -> Result<Mode, ErrorKind> {
        if s.len() == 0 {
            Err(ErrorKind::EmptyModeField)
        } else if s.len() == 1 && Mode::from_letter(s[0]) is Some {
            Ok(Mode::from_letter(s[0])->0)
        } else {
            Err(ErrorKind::InvalidModeCharacter)
        }
    }

    /// What `from_some_str` returns.
    pub open spec fn spec_from_some_str(from: Option<Seq<u8>>) -> Result<Mode, ErrorKind> {
        match from {
            None => Err(ErrorKind::EmptyModeField),
            Some(s) => Mode::spec_from_token(s),
        }
    }

    /// What `from_some_str_or_status` returns.
    pub open spec fn spec_from_some_str_or_status(
        from: Option<Seq<u8>>,
        alternate: Status,
    ) -> Result<Mode, ErrorKind> {
        match from {
            None => Ok(alternate.fallback_mode()),
            Some(s) => Mode::spec_from_token(s),
        }
    }

    /// Position data should be valid if true: the mode is autonomous or
    /// differential.
    pub fn is_valid(&self) -> (valid: bool)
        ensures
            valid == (*self == Mode::Autonomous || *self == Mode::Differential),
    {
        match self {
            Mode::Autonomous => true,
            Mode::Differential => true,
            _ => false,
        }
    }

    fn from_token(s: &[u8]) -> (r: Result<Mode, ErrorKind>)
        ensures
            r == Mode::spec_from_token(s@),
    {
        if s.len() == 0 {
            return Err(ErrorKind::EmptyModeField);
        }
        if s.len() != 1 {
            return Err(ErrorKind::InvalidModeCharacter);
        }
        let b: u8 = s[0];
        if b == LETTER_A {
            Ok(Mode::Autonomous)
        } else if b == LETTER_D {
            Ok(Mode::Differential)
        } else if b == LETTER_E {
            Ok(Mode::Estimated)
        } else if b == LETTER_M {
            Ok(Mode::Manual)
        } else if b == LETTER_S {
            Ok(Mode::Simulator)
        } else if b == LETTER_N {
            Ok(Mode::NotValid)
        } else {
            Err(ErrorKind::InvalidModeCharacter)
        }
    }

    /// Decodes a mandatory mode field.
    ///
    /// One of the letters `A`, `D`, `E`, `M`, `S`, `N` is its mode. A missing
    /// or empty token is `EmptyModeField`; any other text is
    /// `InvalidModeCharacter`.
    pub fn from_some_str(from: Option<&[u8]>) -> (r: Result<Mode, ErrorKind>)
        ensures
            r == Mode::spec_from_some_str(token_view(from)),
    {
        match from {
            None => Err(ErrorKind::EmptyModeField),
            Some(s) => Mode::from_token(s),
        }
    }

    /// Decodes a mode field that older receivers leave out.
    ///
    /// A missing token takes the mode from the status: valid is autonomous,
    /// not valid is not valid. A token that was transmitted decodes as in
    /// `from_some_str`: empty is still an error.
    pub fn from_some_str_or_status(from: Option<&[u8]>, alternate: &Status) -> (r: Result<
        Mode,
        ErrorKind,
    >)
        ensures
            r == Mode::spec_from_some_str_or_status(token_view(from), *alternate),
    {
        match from {
            None => match alternate {
                Status::Valid => Ok(Mode::Autonomous),
                Status::NotValid => Ok(Mode::NotValid),
            },
            Some(s) => Mode::from_token(s),
        }
    }
}

} // verus!
