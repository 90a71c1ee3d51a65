//! Structures that describe satellites in view.

use crate::common::{parse_u16, parse_u8, spec_parse_u16, spec_parse_u8, token_view};
use crate::error::ErrorKind;
use crate::fields::{field_at, fields_after, Fields};
use crate::filter::Source;
use vstd::prelude::*;

verus! {

/// The number that a constellation adds to the numbers of its satellites
/// on the wire: 100 for Beidou, 64 for GLONASS, nothing for the others.
pub open spec fn prn_offset(source: Source) -> int {
    match source {
        Source::Beidou => 100,
        Source::GLONASS => 64,
        _ => 0,
    }
}

/// What `parse_prn` returns.
pub open spec fn spec_parse_prn(input: Option<Seq<u8>>, source: Source) -> Result<
    Option<u16>,
    ErrorKind,
> {
    match spec_parse_u16(input) {
        Ok(Some(n)) => if n >= prn_offset(source) {
            Ok(Some((n - prn_offset(source)) as u16))
        } else {
            Err(ErrorKind::PrnOutOfRange)
        },
        Ok(None) => Ok(None),
        Err(e) => Err(e),
    }
}

fn offset_of(source: Source) -> (r: u16)
    ensures
        r == prn_offset(source),
{
    match source {
        Source::Beidou => 100,
        Source::GLONASS => 64,
        _ => 0,
    }
}

/// Decodes a satellite number, and takes the constellation's offset from
/// it.
///
/// A missing or empty token is no number, and a token that is no 16-bit
/// number is a format error. A number below the offset of `source` is
/// `PrnOutOfRange`.
pub fn parse_prn(input: Option<&[u8]>, source: Source) -> (r: Result<Option<u16>, ErrorKind>)
    ensures
        r == spec_parse_prn(token_view(input), source),
{
    match parse_u16(input) {
        Ok(Some(n)) => {
            let offset: u16 = offset_of(source);
            if n >= offset {
                Ok(Some(n - offset))
            } else {
                Err(ErrorKind::PrnOutOfRange)
            }
        },
        Ok(None) => Ok(None),
        Err(e) => Err(e),
    }
}

/// Information about satellite in view.
#[derive(Debug, Clone, Copy, PartialEq, Eq, Structural)]
pub struct Satellite {
    /// Satellite pseudo-random noise number, counted from the first of its
    /// constellation.
    pub prn: u16,
    /// Angle of elevation of the satellite above the horizontal plane in
    /// degrees, 90° maximum.
    pub elevation: u8,
    /// Degrees from True North, 000° through 359°
    pub azimuth: u16,
    /// Signal-to-Noise Ratio. 00 through 99 dB (null when not tracking).
    pub snr: Option<u8>,
}

impl Default for Satellite {
    fn default() -> (r: Satellite)
        ensures
            r == Satellite::blank(),
    {
        Satellite { prn: 0, elevation: 0, azimuth: 0, snr: None }
    }
}

impl Satellite {
    /// The satellite that fills a slot which holds none.
    pub open spec fn blank() -> Satellite {
        Satellite { prn: 0, elevation: 0, azimuth: 0, snr: None }
    }

    /// What `parse` returns when the next token is the one at `at`.
    ///
    /// The first of the four fields that is malformed decides the error.
    pub open spec fn spec_parse(tokens: Seq<Seq<u8>>, at: int, source: Source) -> Result<
        Option<Satellite>,
        ErrorKind,
    > {
        let prn = spec_parse_prn(field_at(tokens, at), source);
        let elevation = spec_parse_u8(field_at(tokens, at + 1));
        let azimuth = spec_parse_u16(field_at(tokens, at + 2));
        let snr = spec_parse_u8(field_at(tokens, at + 3));
        if prn is Err {
            Err(prn->Err_0)
        } else if elevation is Err {
            Err(elevation->Err_0)
        } else if azimuth is Err {
            Err(azimuth->Err_0)
        } else if snr is Err {
            Err(snr->Err_0)
        } else {
            match (prn->Ok_0, elevation->Ok_0, azimuth->Ok_0) {
                (Some(prn), Some(elevation), Some(azimuth)) => Ok(
                    Some(Satellite { prn, elevation, azimuth, snr: snr->Ok_0 }),
                ),
                _ => Ok(None),
            }
        }
    }

    /// Decodes one satellite from the next four tokens: number, elevation,
    /// azimuth, signal-to-noise ratio.
    ///
    /// The four tokens are taken from `fields` in any case. A malformed one
    /// is an error. With number, elevation and azimuth all present the
    /// result is a satellite, whose ratio may be absent; with one of the
    /// three missing or empty it is no satellite.
    pub fn parse(fields: &mut Fields, source: Source) -> (r: Result<Option<Satellite>, ErrorKind>)
        ensures
            r == Satellite::spec_parse(old(fields)@, 0, source),
            final(fields)@ == fields_after(old(fields)@, 4),
            forall|tokens: Seq<Seq<u8>>, k: int|
                k >= 0 && old(fields)@ == #[trigger] fields_after(tokens, k) ==> r
                    == Satellite::spec_parse(tokens, k, source) && final(fields)@ == fields_after(
                    tokens,
                    k + 4,
                ),
    {
        let ghost start = fields@;
        proof {
            crate::fields::lemma_fields_after_zero(start);
        }
        let prn_token = fields.next();
        let elevation_token = fields.next();
        let azimuth_token = fields.next();
        let snr_token = fields.next();
        proof {
            assert forall|tokens: Seq<Seq<u8>>, k: int|
                k >= 0 && start == #[trigger] fields_after(tokens, k) implies Satellite::spec_parse(
                start,
                0,
                source,
            ) == Satellite::spec_parse(tokens, k, source) && fields_after(start, 4)
                == fields_after(tokens, k + 4) by {
                crate::fields::lemma_fields_after_step(tokens, k);
                crate::fields::lemma_fields_after_step(tokens, k + 1);
                crate::fields::lemma_fields_after_step(tokens, k + 2);
                crate::fields::lemma_fields_after_step(tokens, k + 3);
                crate::fields::lemma_fields_after_step(start, 0);
                crate::fields::lemma_fields_after_step(start, 1);
                crate::fields::lemma_fields_after_step(start, 2);
                crate::fields::lemma_fields_after_step(start, 3);
            }
        }
        let prn = parse_prn(prn_token, source)?;
        let elevation = parse_u8(elevation_token)?;
        let azimuth = parse_u16(azimuth_token)?;
        let snr = parse_u8(snr_token)?;
        match (prn, elevation, azimuth) {
            (Some(prn), Some(elevation), Some(azimuth)) => Ok(
                Some(Satellite { prn, elevation, azimuth, snr }),
            ),
            _ => Ok(None),
        }
    }
}

} // verus!
