//! The GSA sentence: dilution of precision and the satellites of the fix.

use crate::common::{parse_decimal, spec_parse_number, token_view};
use crate::decimal::Decimal;
use crate::error::ErrorKind;
use crate::fields::{field_at, fields_after, is_byte, lemma_fields_after_zero, Fields};
use crate::filter::Source;
use crate::modes::Mode;
use crate::satellite::{parse_prn, spec_parse_prn};
use vstd::prelude::*;
use vstd::slice::slice_subrange;

verus! {

/// The most satellite numbers that one GSA sentence lists.
pub const MAX_PRNS_PER_MESSAGE: usize = 12;

/// ASCII `1`.
pub const DIGIT_ONE: u8 = 0x31;

/// ASCII `2`.
pub const DIGIT_TWO: u8 = 0x32;

/// ASCII `3`.
pub const DIGIT_THREE: u8 = 0x33;

/// Receiver mode of positioning.
#[derive(Debug, Clone, Copy, PartialEq, Eq, Structural)]
pub enum FixType {
    /// No valid position is available. Written `1`.
    NoFix,
    /// The receiver has a 2D position fix. Written `2`.
    Fix2D,
    /// The receiver has a 3D position fix. Written `3`.
    Fix3D,
}

impl FixType {
    /// What `parse` returns.
    pub open spec fn spec_parse(input: Option<Seq<u8>>) -> Result<Option<FixType>, ErrorKind> {
        match input {
            None => Ok(None),
            Some(s) => if s.len() == 0 {
                Ok(None)
            } else if s == seq![DIGIT_ONE] {
                Ok(Some(FixType::NoFix))
            } else if s == seq![DIGIT_TWO] {
                Ok(Some(FixType::Fix2D))
            } else if s == seq![DIGIT_THREE] {
                Ok(Some(FixType::Fix3D))
            } else {
                Err(ErrorKind::FieldFormatError)
            },
        }
    }

    /// Decodes a fix type field: `1`, `2` or `3`. A missing or empty token
    /// is no fix type, and any other text a format error.
    pub fn parse(input: Option<&[u8]>) -> (r: Result<Option<FixType>, ErrorKind>)
        ensures
            r == FixType::spec_parse(token_view(input)),
    {
        match input {
            None => Ok(None),
            Some(s) => {
                if s.len() == 0 {
                    Ok(None)
                } else if is_byte(s, DIGIT_ONE) {
                    Ok(Some(FixType::NoFix))
                } else if is_byte(s, DIGIT_TWO) {
                    Ok(Some(FixType::Fix2D))
                } else if is_byte(s, DIGIT_THREE) {
                    Ok(Some(FixType::Fix3D))
                } else {
                    Err(ErrorKind::FieldFormatError)
                }
            },
        }
    }
}

/// The error of the first malformed satellite number among the first
/// `slots` of them, which begin at token 2; nothing if none is malformed.
pub open spec fn first_prn_error(tokens: Seq<Seq<u8>>, source: Source, slots: nat) -> Option<
    ErrorKind,
>
    decreases slots,
{
    if slots == 0 {
        None
    } else {
        match first_prn_error(tokens, source, (slots - 1) as nat) {
            Some(e) => Some(e),
            None => match spec_parse_prn(field_at(tokens, 2 + (slots - 1)), source) {
                Err(e) => Some(e),
                Ok(_) => None,
            },
        }
    }
}

/// The satellite numbers in the first `slots` slots, up to the first slot
/// that is empty.
pub open spec fn leading_prns(tokens: Seq<Seq<u8>>, source: Source, slots: nat) -> Seq<u16>
    decreases slots,
{
    if slots == 0 {
        Seq::empty()
    } else {
        let before = leading_prns(tokens, source, (slots - 1) as nat);
        match spec_parse_prn(field_at(tokens, 2 + (slots - 1)), source) {
            Ok(Some(prn)) => if before.len() == slots - 1 {
                before.push(prn)
            } else {
                before
            },
            _ => before,
        }
    }
}

/// The number in slot `i` of a sentence that lists `prns`: 0 in a slot that
/// is not taken.
pub open spec fn prn_slot(prns: Seq<u16>, i: int) -> u16 {
    if 0 <= i < prns.len() {
        prns[i]
    } else {
        0
    }
}

/// GPS DOP and active satellites
#[derive(Debug, Clone, Copy, PartialEq, Eq)]
pub struct GSA {
    /// Navigational system.
    pub source: Source,
    /// Receiver's mode of operation.
    pub mode: Mode,
    /// Fix type indicating if it's a 2D or 3D fix.
    pub fix_type: FixType,
    /// Array of PRNs for satellites used in the fix: the numbers of the
    /// sentence, then zeros.
    pub fix_sats_prn: [u16; 12],
    /// The actual number of PRNs in the array.
    pub prn_array_size: usize,
    /// Position dilusion of precision.
    pub pdop: Decimal,
    /// Horizontal dilusion of precision.
    pub hdop: Decimal,
    /// Vertical dilusion of precision.
    pub vdop: Decimal,
}

impl GSA {
    /// Whether the number of PRNs is one that the array holds.
    pub open spec fn wf(self) -> bool {
        self.prn_array_size <= MAX_PRNS_PER_MESSAGE
    }

    /// The PRNs of the satellites used in the fix, in the order of the
    /// sentence.
    pub open spec fn spec_get_fix_satellites_prn(self) -> Seq<u16> {
        self.fix_sats_prn@.take(self.prn_array_size as int)
    }

    /// The array that holds `prns` and then zeros.
    pub open spec fn spec_prn_array(prns: Seq<u16>) -> [u16; 12] {
        [
            prn_slot(prns, 0),
            prn_slot(prns, 1),
            prn_slot(prns, 2),
            prn_slot(prns, 3),
            prn_slot(prns, 4),
            prn_slot(prns, 5),
            prn_slot(prns, 6),
            prn_slot(prns, 7),
            prn_slot(prns, 8),
            prn_slot(prns, 9),
            prn_slot(prns, 10),
            prn_slot(prns, 11),
        ]
    }

    /// An array made of at most twelve numbers holds just those.
    pub proof fn lemma_prn_array(prns: Seq<u16>)
        requires
            prns.len() <= MAX_PRNS_PER_MESSAGE,
        ensures
            GSA::spec_prn_array(prns)@.take(prns.len() as int) == prns,
    {
        assert(GSA::spec_prn_array(prns)@.take(prns.len() as int) =~= prns);
    }

    /// What `parse` returns for the tokens that follow the sentence's
    /// leading token.
    ///
    /// The first malformed field, in the order of the sentence, decides the
    /// error.
    pub open spec fn spec_parse(source: Source, tokens: Seq<Seq<u8>>) -> Result<
        Option<GSA>,
        ErrorKind,
    > {
        let mode = Mode::spec_from_some_str(field_at(tokens, 0));
        let fix_type = FixType::spec_parse(field_at(tokens, 1));
        let prn_error = first_prn_error(tokens, source, MAX_PRNS_PER_MESSAGE as nat);
        let prns = leading_prns(tokens, source, MAX_PRNS_PER_MESSAGE as nat);
        let pdop = spec_parse_number(field_at(tokens, 14));
        let hdop = spec_parse_number(field_at(tokens, 15));
        let vdop = spec_parse_number(field_at(tokens, 16));
        if mode is Err {
            Err(mode->Err_0)
        } else if fix_type is Err {
            Err(fix_type->Err_0)
        } else if prn_error is Some {
            Err(prn_error->0)
        } else if pdop is Err {
            Err(pdop->Err_0)
        } else if hdop is Err {
            Err(hdop->Err_0)
        } else if vdop is Err {
            Err(vdop->Err_0)
        } else {
            match (fix_type->Ok_0, pdop->Ok_0, hdop->Ok_0, vdop->Ok_0) {
                (Some(fix_type), Some(pdop), Some(hdop), Some(vdop)) => Ok(
                    Some(
                        GSA {
                            source,
                            mode: mode->Ok_0,
                            fix_type,
                            fix_sats_prn: GSA::spec_prn_array(prns),
                            prn_array_size: prns.len() as usize,
                            pdop,
                            hdop,
                            vdop,
                        },
                    ),
                ),
                _ => Ok(None),
            }
        }
    }

    /// Decodes the fields of a GSA sentence: mode, fix type, twelve slots of
    /// satellite numbers, then position, horizontal and vertical dilution of
    /// precision.
    ///
    /// All twelve slots are read, and a malformed one is an error; the
    /// record lists the numbers up to the first empty slot. With the fix
    /// type or one of the three dilutions missing or empty there is no
    /// record.
    pub fn parse(source: Source, fields: Fields) -> (r: Result<Option<GSA>, ErrorKind>)
        ensures
            r == GSA::spec_parse(source, fields@),
            r matches Ok(Some(gsa)) ==> gsa.wf() && gsa.spec_get_fix_satellites_prn()
                == leading_prns(fields@, source, MAX_PRNS_PER_MESSAGE as nat),
    {
        let ghost tokens = fields@;
        let mut cursor = fields;
        proof {
            lemma_fields_after_zero(tokens);
        }
        let mode = Mode::from_some_str(cursor.next())?;
        let fix_type = FixType::parse(cursor.next())?;
        let mut fix_sats_prn: [u16; 12] = [0u16;12];
        let mut count: usize = 0;
        let mut slot: usize = 0;
        let ghost mut found: Seq<u16> = Seq::empty();
        while slot < 12
            invariant
                tokens == fields@,
                Mode::spec_from_some_str(field_at(tokens, 0)) == Ok::<Mode, ErrorKind>(mode),
                FixType::spec_parse(field_at(tokens, 1)) == Ok::<Option<FixType>, ErrorKind>(
                    fix_type,
                ),
                0 <= count <= slot <= 12,
                cursor@ == fields_after(tokens, 2 + slot),
                first_prn_error(tokens, source, slot as nat) is None,
                leading_prns(tokens, source, slot as nat) == found,
                found.len() == count,
                forall|i: int| 0 <= i < 12 ==> fix_sats_prn@[i] == prn_slot(found, i),
            decreases 12 - slot,
        {
            match parse_prn(cursor.next(), source) {
                Err(e) => {
                    proof {
                        assert(first_prn_error(tokens, source, (slot + 1) as nat) == Some(e));
                        lemma_prn_error_stays(tokens, source, (slot + 1) as nat, 12);
                    }
                    return Err(e);
                },
                Ok(None) => {},
                Ok(Some(prn)) => {
                    if count == slot {
                        let ghost before = fix_sats_prn@;
                        fix_sats_prn[count] = prn;
                        proof {
                            assert(fix_sats_prn@ == before.update(count as int, prn));
                            assert forall|i: int| 0 <= i < 12 implies fix_sats_prn@[i] == prn_slot(
                                found.push(prn),
                                i,
                            ) by {
                                if i != count {
                                    assert(before[i] == prn_slot(found, i));
                                }
                            }
                            found = found.push(prn);
                        }
                        count = count + 1;
                    }
                },
            }
            slot = slot + 1;
        }
        let pdop = parse_decimal(cursor.next())?;
        let hdop = parse_decimal(cursor.next())?;
        let vdop = parse_decimal(cursor.next())?;
        match (fix_type, pdop, hdop, vdop) {
            (Some(fix_type), Some(pdop), Some(hdop), Some(vdop)) => {
                let gsa = GSA {
                    source,
                    mode,
                    fix_type,
                    fix_sats_prn,
                    prn_array_size: count,
                    pdop,
                    hdop,
                    vdop,
                };
                proof {
                    assert(gsa.fix_sats_prn =~= GSA::spec_prn_array(found));
                    GSA::lemma_prn_array(found);
                }
                Ok(Some(gsa))
            },
            _ => Ok(None),
        }
    }

    /// Retrieves a slice containing the PRNs for satellites used in the fix
    /// in the GSA message.
    pub fn get_fix_satellites_prn(&self) -> (r: &[u16])
        requires
            self.wf(),
        ensures
            r@ == self.spec_get_fix_satellites_prn(),
    {
        slice_subrange(self.fix_sats_prn.as_slice(), 0, self.prn_array_size)
    }
}

/// A malformed number among the first slots is the error of every longer
/// reading.
pub proof fn lemma_prn_error_stays(tokens: Seq<Seq<u8>>, source: Source, slots: nat, more: nat)
    requires
        slots <= more,
        first_prn_error(tokens, source, slots) is Some,
    ensures
        first_prn_error(tokens, source, more) == first_prn_error(tokens, source, slots),
    decreases more - slots,
{
    if slots < more {
        lemma_prn_error_stays(tokens, source, slots, (more - 1) as nat);
    }
}

} // verus!
