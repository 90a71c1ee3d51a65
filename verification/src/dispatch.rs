//! From the payload of a frame to the record of its sentence.

use crate::error::ErrorKind;
use crate::fields::{fields_after, lemma_split_nonempty, split_fields, Fields};
use crate::filter::{Sentence, SentenceMask, Source, SourceMask};
use crate::gga::GGA;
use crate::gll::GLL;
use crate::gsa::GSA;
use crate::gsv::GSV;
use crate::mtk::{MTKPacketType, PMTKSPF};
use crate::rmc::RMC;
use crate::vtg::VTG;
use vstd::prelude::*;
use vstd::slice::slice_subrange;

verus! {

/// The NMEA sentence parsing result.
///
/// Sentences with many null fields or sentences without valid data is also
/// parsed and returned as None. None ParseResult may be interpreted as
/// working receiver but without valid data.
#[derive(Debug, Clone, Copy, PartialEq, Eq)]
pub enum ParseResult {
    /// The Recommended Minimum Sentence for any GNSS. Typically most used.
    RMC(Option<RMC>),
    /// The Geographic coordinates including altitude, GPS solution quality,
    /// DGPS usage information.
    GGA(Option<GGA>),
    /// The Geographic latitude ang longitude sentence with time of fix and
    /// the receiver state.
    GLL(Option<GLL>),
    /// The actual course and speed relative to the ground.
    VTG(Option<VTG>),
    /// The satellites in views including the number of SVs in view, the PRN
    /// numbers, elevations, azimuths, and SNR values.
    GSV(Option<GSV>),
    /// The MTK properitary messages.
    PMTK(Option<PMTKSPF>),
    /// The GPS DOP and active satellites. Provides information about the
    /// DOP and the active satellites used for the current fix.
    GSA(Option<GSA>),
}

/// Whether every byte of `s` is below 128.
pub open spec fn is_ascii_text(s: Seq<u8>) -> bool {
    forall|i: int| 0 <= i < s.len() ==> #[trigger] s[i] < 128
}

/// The part of the leading token that names the kind of sentence: bytes 2
/// to 4, or for a MediaTek packet the first four bytes.
pub open spec fn sentence_code(head: Seq<u8>, source: Source) -> Seq<u8> {
    if source == Source::MTK {
        head.subrange(0, 4)
    } else {
        head.subrange(2, 5)
    }
}

/// The record of a sentence of the kind `sentence`, from the leading token
/// `head` and the tokens `rest` that follow it.
#[verifier::opaque]
pub open spec fn spec_decode_fields(
    sentence: Sentence,
    source: Source,
    head: Seq<u8>,
    rest: Seq<Seq<u8>>,
) -> Result<ParseResult, ErrorKind> {
    match sentence {
        Sentence::RMC => match RMC::spec_parse(source, rest) {
            Ok(record) => Ok(ParseResult::RMC(record)),
            Err(e) => Err(e),
        },
        Sentence::GGA => match GGA::spec_parse(source, rest) {
            Ok(record) => Ok(ParseResult::GGA(record)),
            Err(e) => Err(e),
        },
        Sentence::GLL => match GLL::spec_parse(source, rest) {
            Ok(record) => Ok(ParseResult::GLL(record)),
            Err(e) => Err(e),
        },
        Sentence::VTG => match VTG::spec_parse(source, rest) {
            Ok(record) => Ok(ParseResult::VTG(record)),
            Err(e) => Err(e),
        },
        Sentence::GSV => match GSV::spec_parse(source, rest) {
            Ok(record) => Ok(ParseResult::GSV(record)),
            Err(e) => Err(e),
        },
        Sentence::GSA => match GSA::spec_parse(source, rest) {
            Ok(record) => Ok(ParseResult::GSA(record)),
            Err(e) => Err(e),
        },
        Sentence::PMTK => if head.len() < 7 {
            Err(ErrorKind::SentenceTooShort)
        } else {
            match MTKPacketType::spec_try_from(head.subrange(4, 7)) {
                Err(e) => Err(e),
                Ok(MTKPacketType::SPF) => match PMTKSPF::spec_parse(source, rest) {
                    Ok(record) => Ok(ParseResult::PMTK(record)),
                    Err(e) => Err(e),
                },
            }
        },
    }
}

/// What `decode_sentence` returns for a payload and the sets of sources
/// and kinds that are admitted.
pub open spec fn spec_decode_sentence(
    payload: Seq<u8>,
    sources: Set<Source>,
    sentences: Set<Sentence>,
) -> Result<Option<ParseResult>, ErrorKind> {
    let tokens = split_fields(payload);
    let head = tokens[0];
    if !is_ascii_text(payload) {
        Err(ErrorKind::FrameFormatError)
    } else if head.len() < 5 {
        Err(ErrorKind::SentenceTooShort)
    } else {
        match Source::spec_try_from(head) {
            Err(e) => Err(e),
            Ok(source) => if !sources.contains(source) {
                Ok(None)
            } else {
                match Sentence::spec_try_from(sentence_code(head, source)) {
                    Err(e) => Err(e),
                    Ok(sentence) => if !sentences.contains(sentence) {
                        Ok(None)
                    } else {
                        match spec_decode_fields(sentence, source, head, fields_after(tokens, 1)) {
                            Ok(result) => Ok(Some(result)),
                            Err(e) => Err(e),
                        }
                    },
                }
            },
        }
    }
}

/// Whether every byte of `s` is below 128.
pub fn is_ascii(s: &[u8]) -> (r: bool)
    ensures
        r == is_ascii_text(s@),
{
    let n: usize = s.len();
    let mut i: usize = 0;
    while i < n
        invariant
            n == s@.len(),
            0 <= i <= n,
            forall|k: int| 0 <= k < i ==> #[trigger] s@[k] < 128,
        decreases n - i,
    {
        if s[i] >= 128 {
            return false;
        }
        i = i + 1;
    }
    true
}

/// Decodes the payload of a frame, the bytes between `$` and `*`.
///
/// The payload is split at its commas. Its leading token must be five bytes
/// at least, or the sentence is too short: the first two name the source,
/// the next three the kind of sentence (for a MediaTek packet the first four
/// name `PMTK`, and bytes 4 to 6 the packet). A source or kind that is not
/// known is an error; one that is known and not admitted by its mask gives
/// no outcome, and the source is tested first. Otherwise the remaining tokens
/// go to the decoder of the kind, whose result this is. A payload with a byte
/// above 127 is a frame format error.
pub fn decode_sentence(
    payload: &[u8],
    source_mask: &SourceMask,
    sentence_mask: &SentenceMask,
) -> (r: Result<Option<ParseResult>, ErrorKind>)
    ensures
        r == spec_decode_sentence(payload@, source_mask@, sentence_mask@),
{
    if !is_ascii(payload) {
        return Err(ErrorKind::FrameFormatError);
    }
    let mut fields = Fields::new(payload);
    proof {
        lemma_split_nonempty(payload@);
        reveal(spec_decode_fields);
    }
    let head = match fields.next() {
        Some(head) => head,
        None => {
            return Err(ErrorKind::SentenceTooShort);
        },
    };
    if head.len() < 5 {
        return Err(ErrorKind::SentenceTooShort);
    }
    let source = Source::try_from(head)?;
    if source_mask.is_masked(source) {
        return Ok(None);
    }
    let code = match source {
        Source::MTK => slice_subrange(head, 0, 4),
        _ => slice_subrange(head, 2, 5),
    };
    let sentence = Sentence::try_from(code)?;
    if sentence_mask.is_masked(sentence) {
        return Ok(None);
    }
    match sentence {
        Sentence::RMC => Ok(Some(ParseResult::RMC(RMC::parse(source, fields)?))),
        Sentence::GGA => Ok(Some(ParseResult::GGA(GGA::parse(source, fields)?))),
        Sentence::GLL => Ok(Some(ParseResult::GLL(GLL::parse(source, fields)?))),
        Sentence::VTG => Ok(Some(ParseResult::VTG(VTG::parse(source, fields)?))),
        Sentence::GSV => Ok(Some(ParseResult::GSV(GSV::parse(source, fields)?))),
        Sentence::GSA => Ok(Some(ParseResult::GSA(GSA::parse(source, fields)?))),
        Sentence::PMTK => {
            if head.len() < 7 {
                return Err(ErrorKind::SentenceTooShort);
            }
            match MTKPacketType::try_from(slice_subrange(head, 4, 7))? {
                MTKPacketType::SPF => Ok(
                    Some(ParseResult::PMTK(PMTKSPF::parse(source, fields)?)),
                ),
            }
        },
    }
}

/// A sentence from a talker that is not known is `UnsupportedSource`, and
/// one of a kind that is not known, from a source that is known and
/// admitted, is `UnsupportedSentence`.
pub proof fn lemma_unsupported(payload: Seq<u8>, sources: Set<Source>, sentences: Set<Sentence>)
    requires
        is_ascii_text(payload),
        split_fields(payload)[0].len() >= 5,
    ensures
        ({
            let head = split_fields(payload)[0];
            let source = Source::from_talker(head[0], head[1]);
            &&& source is None ==> spec_decode_sentence(payload, sources, sentences) == Err::<
                Option<ParseResult>,
                ErrorKind,
            >(ErrorKind::UnsupportedSource)
            &&& source is Some && sources.contains(source->0) && Sentence::spec_try_from(
                sentence_code(head, source->0),
            ) is Err ==> spec_decode_sentence(payload, sources, sentences) == Err::<
                Option<ParseResult>,
                ErrorKind,
            >(ErrorKind::UnsupportedSentence)
        }),
{
}

/// A sentence whose source or kind is known and not admitted has no
/// outcome: it is neither a record nor an error.
pub proof fn lemma_filtered(payload: Seq<u8>, sources: Set<Source>, sentences: Set<Sentence>)
    requires
        is_ascii_text(payload),
        split_fields(payload)[0].len() >= 5,
        Source::from_talker(split_fields(payload)[0][0], split_fields(payload)[0][1]) is Some,
    ensures
        ({
            let head = split_fields(payload)[0];
            let source = Source::from_talker(head[0], head[1])->0;
            let sentence = Sentence::spec_try_from(sentence_code(head, source));
            &&& !sources.contains(source) ==> spec_decode_sentence(payload, sources, sentences)
                == Ok::<Option<ParseResult>, ErrorKind>(None)
            &&& sources.contains(source) && sentence is Ok && !sentences.contains(sentence->Ok_0)
                ==> spec_decode_sentence(payload, sources, sentences) == Ok::<
                Option<ParseResult>,
                ErrorKind,
            >(None)
        }),
{
}

} // verus!
