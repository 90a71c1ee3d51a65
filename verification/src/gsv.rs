//! The GSV sentence: satellites in view.

use crate::common::{parse_u8, spec_parse_u8};
use crate::error::ErrorKind;
use crate::fields::{field_at, fields_after, lemma_fields_after_zero, Fields};
use crate::filter::Source;
use crate::satellite::Satellite;
use vstd::prelude::*;
use vstd::slice::slice_subrange;

verus! {

/// The most satellites that one GSV sentence describes.
pub const MAX_SATELLITES_PER_MESSAGE: usize = 4;

/// The satellite in slot `i` of a sentence that describes `sats`: the
/// blank one in a slot that is not taken.
pub open spec fn satellite_slot(sats: Seq<Satellite>, i: int) -> Satellite {
    if 0 <= i < sats.len() {
        sats[i]
    } else {
        Satellite::blank()
    }
}

/// The satellites of the first `slots` blocks of four tokens, which begin
/// at token 3: each block up to the first that holds no satellite. A
/// malformed field in one of them, or in that first empty block, is the
/// error; blocks after the first empty one are not read.
pub open spec fn leading_satellites(tokens: Seq<Seq<u8>>, source: Source, slots: nat) -> Result<
    Seq<Satellite>,
    ErrorKind,
>
    decreases slots,
{
    if slots == 0 {
        Ok(Seq::empty())
    } else {
        match leading_satellites(tokens, source, (slots - 1) as nat) {
            Err(e) => Err(e),
            Ok(before) => if before.len() < slots - 1 {
                Ok(before)
            } else {
                match Satellite::spec_parse(tokens, 3 + 4 * (slots - 1), source) {
                    Err(e) => Err(e),
                    Ok(None) => Ok(before),
                    Ok(Some(satellite)) => Ok(before.push(satellite)),
                }
            },
        }
    }
}

/// Satellites in views including the number of SVs in view, the PRN
/// numbers, elevations, azimuths, and SNR values.
#[derive(Debug, Clone, Copy, PartialEq, Eq)]
pub struct GSV {
    /// The total number of GSV messages for the current data.
    pub total_messages_number: u8,
    /// The message number (1 to the total number of messages) for the
    /// current GSV sentence.
    pub message_number: u8,
    /// Total number of satellites in view.
    pub sat_in_view: u8,
    /// Array of satellite information: the satellites of the sentence, then
    /// blank ones.
    pub satellites: [Satellite; 4],
    /// The actual number of satellites in the array.
    pub satellite_array_size: usize,
}

impl GSV {
    /// Whether the number of satellites is one that the array holds.
    pub open spec fn wf(self) -> bool {
        self.satellite_array_size <= MAX_SATELLITES_PER_MESSAGE
    }

    /// The satellites that the sentence describes, in the order of the
    /// sentence.
    pub open spec fn spec_get_satellites(self) -> Seq<Satellite> {
        self.satellites@.take(self.satellite_array_size as int)
    }

    /// The sentence with the given numbers and satellites.
    pub open spec fn spec_new(
        total_messages_number: u8,
        message_number: u8,
        sat_in_view: u8,
        sats: Seq<Satellite>,
    ) -> GSV {
        GSV {
            total_messages_number,
            message_number,
            sat_in_view,
            satellites: [
                satellite_slot(sats, 0),
                satellite_slot(sats, 1),
                satellite_slot(sats, 2),
                satellite_slot(sats, 3),
            ],
            satellite_array_size: sats.len() as usize,
        }
    }

    /// What `spec_new` makes of at most four satellites holds just those.
    pub proof fn lemma_new(
        total_messages_number: u8,
        message_number: u8,
        sat_in_view: u8,
        sats: Seq<Satellite>,
    )
        requires
            sats.len() <= MAX_SATELLITES_PER_MESSAGE,
        ensures
            ({
                let gsv = GSV::spec_new(total_messages_number, message_number, sat_in_view, sats);
                &&& gsv.wf()
                &&& gsv.spec_get_satellites() == sats
            }),
    {
        let gsv = GSV::spec_new(total_messages_number, message_number, sat_in_view, sats);
        assert(gsv.spec_get_satellites() =~= sats);
    }

    /// What `parse` returns for the tokens that follow the sentence's
    /// leading token.
    pub open spec fn spec_parse(source: Source, tokens: Seq<Seq<u8>>) -> Result<
        Option<GSV>,
        ErrorKind,
    > {
        let total = spec_parse_u8(field_at(tokens, 0));
        let number = spec_parse_u8(field_at(tokens, 1));
        let in_view = spec_parse_u8(field_at(tokens, 2));
        let sats = leading_satellites(tokens, source, MAX_SATELLITES_PER_MESSAGE as nat);
        if total is Err {
            Err(total->Err_0)
        } else if number is Err {
            Err(number->Err_0)
        } else if in_view is Err {
            Err(in_view->Err_0)
        } else if sats is Err {
            Err(sats->Err_0)
        } else {
            match (total->Ok_0, number->Ok_0, in_view->Ok_0) {
                (Some(total), Some(number), Some(in_view)) => Ok(
                    Some(GSV::spec_new(total, number, in_view, sats->Ok_0)),
                ),
                _ => Ok(None),
            }
        }
    }

    /// Decodes the fields of a GSV sentence: number of messages, number of
    /// this message, satellites in view, then up to four satellites of four
    /// fields each.
    ///
    /// Satellites are read up to the first block that holds none. A
    /// malformed field that was read is an error; with one of the three
    /// leading numbers missing or empty there is no record.
    pub fn parse(source: Source, fields: Fields) -> (r: Result<Option<GSV>, ErrorKind>)
        ensures
            r == GSV::spec_parse(source, fields@),
            r matches Ok(Some(gsv)) ==> gsv.wf() && Ok::<Seq<Satellite>, ErrorKind>(
                gsv.spec_get_satellites(),
            ) == leading_satellites(fields@, source, MAX_SATELLITES_PER_MESSAGE as nat),
    {
        let ghost tokens = fields@;
        let mut cursor = fields;
        proof {
            lemma_fields_after_zero(tokens);
        }
        let total_messages_number = parse_u8(cursor.next())?;
        let message_number = parse_u8(cursor.next())?;
        let sat_in_view = parse_u8(cursor.next())?;
        let blank = Satellite { prn: 0, elevation: 0, azimuth: 0, snr: None };
        let mut satellites: [Satellite; 4] = [blank;4];
        let mut count: usize = 0;
        let mut slot: usize = 0;
        let ghost mut found: Seq<Satellite> = Seq::empty();
        while slot < 4 && count == slot
            invariant
                spec_parse_u8(field_at(tokens, 0)) == Ok::<Option<u8>, ErrorKind>(
                    total_messages_number,
                ),
                spec_parse_u8(field_at(tokens, 1)) == Ok::<Option<u8>, ErrorKind>(message_number),
                spec_parse_u8(field_at(tokens, 2)) == Ok::<Option<u8>, ErrorKind>(sat_in_view),
                0 <= count <= slot <= 4,
                slot > count ==> count == slot - 1,
                tokens == fields@,
                count == slot ==> cursor@ == fields_after(tokens, 3 + 4 * slot),
                leading_satellites(tokens, source, slot as nat) == Ok::<Seq<Satellite>, ErrorKind>(
                    found,
                ),
                found.len() == count,
                forall|i: int| 0 <= i < 4 ==> satellites@[i] == satellite_slot(found, i),
            decreases 4 - slot,
        {
            match Satellite::parse(&mut cursor, source) {
                Err(e) => {
                    proof {
                        assert(leading_satellites(tokens, source, (slot + 1) as nat) == Err::<
                            Seq<Satellite>,
                            ErrorKind,
                        >(e));
                        lemma_leading_error(tokens, source, (slot + 1) as nat, 4);
                        assert(leading_satellites(tokens, source, 4) == Err::<
                            Seq<Satellite>,
                            ErrorKind,
                        >(e));
                    }
                    return Err(e);
                },
                Ok(None) => {},
                Ok(Some(satellite)) => {
                    let ghost before = satellites@;
                    satellites[count] = satellite;
                    proof {
                        assert(satellites@ == before.update(count as int, satellite));
                        assert forall|i: int| 0 <= i < 4 implies satellites@[i] == satellite_slot(
                            found.push(satellite),
                            i,
                        ) by {
                            if i != count {
                                assert(before[i] == satellite_slot(found, i));
                            }
                        }
                        found = found.push(satellite);
                    }
                    count = count + 1;
                },
            }
            slot = slot + 1;
        }
        proof {
            lemma_leading_stopped(tokens, source, slot as nat, 4);
        }
        match (total_messages_number, message_number, sat_in_view) {
            (Some(total_messages_number), Some(message_number), Some(sat_in_view)) => {
                let gsv = GSV {
                    total_messages_number,
                    message_number,
                    sat_in_view,
                    satellites,
                    satellite_array_size: count,
                };
                proof {
                    let model = GSV::spec_new(
                        total_messages_number,
                        message_number,
                        sat_in_view,
                        found,
                    );
                    assert(gsv.satellites =~= model.satellites);
                    GSV::lemma_new(total_messages_number, message_number, sat_in_view, found);
                }
                Ok(Some(gsv))
            },
            _ => Ok(None),
        }
    }

    /// Retrieves a slice containing the valid satellite information present
    /// in the GSV message.
    pub fn get_satellites(&self) -> (r: &[Satellite])
        requires
            self.wf(),
        ensures
            r@ == self.spec_get_satellites(),
    {
        slice_subrange(self.satellites.as_slice(), 0, self.satellite_array_size)
    }
}

/// An error among the first blocks is the error of every longer reading.
pub proof fn lemma_leading_error(tokens: Seq<Seq<u8>>, source: Source, slots: nat, more: nat)
    requires
        slots <= more,
        leading_satellites(tokens, source, slots) is Err,
    ensures
        leading_satellites(tokens, source, more) == leading_satellites(tokens, source, slots),
    decreases more - slots,
{
    if slots < more {
        lemma_leading_error(tokens, source, slots, (more - 1) as nat);
    }
}

/// Once a block held no satellite, reading on changes nothing.
pub proof fn lemma_leading_stopped(tokens: Seq<Seq<u8>>, source: Source, slots: nat, more: nat)
    requires
        slots <= more,
        leading_satellites(tokens, source, slots) is Ok,
        leading_satellites(tokens, source, slots)->Ok_0.len() < slots || slots == more,
    ensures
        leading_satellites(tokens, source, more) == leading_satellites(tokens, source, slots),
    decreases more - slots,
{
    if slots < more {
        lemma_leading_stopped(tokens, source, slots, (more - 1) as nat);
    }
}

} // verus!
