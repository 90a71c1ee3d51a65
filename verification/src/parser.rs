//! The framer: from a stream of bytes to the outcome of each frame.

use crate::common::{DIGIT_NINE, DIGIT_ZERO};
use crate::dispatch::{decode_sentence, spec_decode_sentence, ParseResult};
use crate::error::ErrorKind;
use crate::filter::{Sentence, SentenceMask, Source, SourceMask, LETTER_F};
use crate::modes::LETTER_A;
use vstd::prelude::*;
use vstd::slice::slice_subrange;

verus! {

/// ASCII `$`, which opens a frame.
pub const DOLLAR: u8 = 0x24;

/// ASCII `*`, which ends the payload.
pub const STAR: u8 = 0x2A;

/// Carriage return.
pub const CR: u8 = 0x0D;

/// Line feed.
pub const LF: u8 = 0x0A;

/// Maximum allowed sentence length: according to the NMEA 0183 documents a
/// payload is not longer than 79 bytes.
pub const MAX_SENTENCE_LENGTH: usize = 79;

/// The payload length that a lenient parser allows, and the size of every
/// parser's buffer.
pub const LENIENT_SENTENCE_LENGTH: usize = 120;

/// Where in a frame the parser stands.
#[derive(Debug, Clone, Copy, PartialEq, Eq, Structural)]
pub enum ParserState {
    /// Between frames: every byte but `$` is dropped.
    WaitStart,
    /// In the payload, up to `*`.
    ReadUntilChkSum,
    /// Before the first digit of the checksum.
    ChkSumUpper,
    /// Before the second digit of the checksum.
    ChkSumLower,
    /// After a checksum that matched, before carriage return.
    WaitCR,
    /// After carriage return, before line feed.
    WaitLF,
}

/// What a frame ends in: a record or an error; or nothing, for a sentence
/// that the masks do not admit.
pub type Outcome = Result<ParseResult, ErrorKind>;

/// The value of the hexadecimal digit `symbol`, which is `0` to `9` or `A`
/// to `F`.
pub open spec fn hex_value(symbol: u8) -> Option<u8> {
    if DIGIT_ZERO <= symbol <= DIGIT_NINE {
        Some((symbol - DIGIT_ZERO) as u8)
    } else if LETTER_A <= symbol <= LETTER_F {
        Some((symbol - LETTER_A + 10) as u8)
    } else {
        None
    }
}

/// The value of a hexadecimal digit, or `InvalidChecksumDigit` for a byte
/// that is none.
pub fn parse_hex_halfbyte(symbol: u8) -> (r: Result<u8, ErrorKind>)
    ensures
        r == match hex_value(symbol) {
            Some(v) => Ok::<u8, ErrorKind>(v),
            None => Err::<u8, ErrorKind>(ErrorKind::InvalidChecksumDigit),
        },
        r matches Ok(v) ==> v < 16,
{
    if symbol >= DIGIT_ZERO && symbol <= DIGIT_NINE {
        return Ok(symbol - DIGIT_ZERO);
    }
    if symbol >= LETTER_A && symbol <= LETTER_F {
        return Ok(symbol - LETTER_A + 10);
    }
    Err(ErrorKind::InvalidChecksumDigit)
}

/// The XOR of all bytes of `s`.
pub open spec fn checksum(s: Seq<u8>) -> u8
    decreases s.len(),
{
    if s.len() == 0 {
        0
    } else {
        checksum(s.drop_last()) ^ s.last()
    }
}

/// The byte that the two checksum digits of values `high` and `low` denote.
pub open spec fn checksum_byte(high: u8, low: u8) -> u8 {
    (high << 4) | low
}

/// The outcome that a decoded sentence is reported as: none for a sentence
/// that was filtered out.
pub open spec fn outcome_of(decoded: Result<Option<ParseResult>, ErrorKind>) -> Option<Outcome> {
    match decoded {
        Ok(None) => None,
        Ok(Some(result)) => Some(Ok(result)),
        Err(e) => Some(Err(e)),
    }
}

/// What a parser is, to its contracts: its place in the frame, the payload
/// read so far, and what it was configured with.
///
/// Between frames the payload is empty: what an earlier frame left in the
/// buffer is no part of the parser's state.
pub struct ParserView {
    /// The place in the frame.
    pub state: ParserState,
    /// The payload bytes of the frame that is being read.
    pub payload: Seq<u8>,
    /// The value of the first checksum digit, once it was read.
    pub expected_high: u8,
    /// The longest payload that is accepted.
    pub capacity: nat,
    /// The sources that are admitted.
    pub sources: Set<Source>,
    /// The kinds of sentence that are admitted.
    pub sentences: Set<Sentence>,
}

impl ParserView {
    /// The parser between frames, with its configuration kept.
    pub open spec fn idle(self) -> ParserView {
        ParserView {
            state: ParserState::WaitStart,
            payload: Seq::empty(),
            expected_high: 0,
            ..self
        }
    }

    /// The parser at another place in the same frame.
    pub open spec fn at(self, state: ParserState) -> ParserView {
        ParserView { state, ..self }
    }

    /// The parser after the byte `symbol`, and the outcome that the byte
    /// completes, if it completes one.
    #[verifier::opaque]
    pub open spec fn step(self, symbol: u8) -> (ParserView, Option<Outcome>) {
        match self.state {
            ParserState::WaitStart => if symbol == DOLLAR {
                (self.idle().at(ParserState::ReadUntilChkSum), None)
            } else {
                (self.idle(), None)
            },
            ParserState::ReadUntilChkSum => if symbol == STAR {
                (self.at(ParserState::ChkSumUpper), None)
            } else if self.payload.len() >= self.capacity {
                (self.idle(), Some(Err(ErrorKind::BufferOverflow)))
            } else {
                (ParserView { payload: self.payload.push(symbol), ..self }, None)
            },
            ParserState::ChkSumUpper => match hex_value(symbol) {
                Some(high) => (
                    ParserView { state: ParserState::ChkSumLower, expected_high: high, ..self },
                    None,
                ),
                None => (self.idle(), Some(Err(ErrorKind::InvalidChecksumDigit))),
            },
            ParserState::ChkSumLower => match hex_value(symbol) {
                Some(low) => if checksum_byte(self.expected_high, low) != checksum(self.payload) {
                    (self.idle(), Some(Err(ErrorKind::ChecksumMismatch)))
                } else {
                    (ParserView { state: ParserState::WaitCR, expected_high: 0, ..self }, None)
                },
                None => (self.idle(), Some(Err(ErrorKind::InvalidChecksumDigit))),
            },
            ParserState::WaitCR => if symbol == CR {
                (self.at(ParserState::WaitLF), None)
            } else {
                (self.idle(), Some(Err(ErrorKind::FrameFormatError)))
            },
            ParserState::WaitLF => if symbol == LF {
                (
                    self.idle(),
                    outcome_of(spec_decode_sentence(self.payload, self.sources, self.sentences)),
                )
            } else {
                (self.idle(), Some(Err(ErrorKind::FrameFormatError)))
            },
        }
    }

    /// The parser after the bytes `input`, and the outcomes that they
    /// complete, in order.
    pub open spec fn run(self, input: Seq<u8>) -> (ParserView, Seq<Outcome>)
        decreases input.len(),
    {
        if input.len() == 0 {
            (self, Seq::empty())
        } else {
            let (before, outcomes) = self.run(input.drop_last());
            let (after, outcome) = before.step(input.last());
            match outcome {
                Some(o) => (after, outcomes.push(o)),
                None => (after, outcomes),
            }
        }
    }

    /// The first outcome that the bytes `input` complete, with the parser
    /// after the byte that completes it and the bytes that follow that byte;
    /// or no outcome, with the parser after all of `input`.
    pub open spec fn next_outcome(self, input: Seq<u8>) -> (ParserView, Seq<u8>, Option<Outcome>)
        decreases input.len(),
    {
        if input.len() == 0 {
            (self, input, None)
        } else {
            let (after, outcome) = self.step(input[0]);
            if outcome is Some {
                (after, input.skip(1), outcome)
            } else {
                after.next_outcome(input.skip(1))
            }
        }
    }
}

/// Parses NMEA sentences and stores intermediate parsing state.
///
/// Parser is tolerant for errors so you should not reinitialize it after
/// errors.
pub struct Parser {
    buffer: [u8; 120],
    buflen: usize,
    chksum: u8,
    expected_chksum: u8,
    parser_state: ParserState,
    capacity: usize,
    source_mask: SourceMask,
    sentence_mask: SentenceMask,
}

impl View for Parser {
    type V = ParserView;

    closed spec fn view(&self) -> ParserView {
        ParserView {
            state: self.parser_state,
            payload: if self.parser_state == ParserState::WaitStart {
                Seq::empty()
            } else {
                self.buffer@.take(self.buflen as int)
            },
            expected_high: if self.parser_state == ParserState::ChkSumLower {
                self.expected_chksum
            } else {
                0
            },
            capacity: self.capacity as nat,
            sources: self.source_mask@,
            sentences: self.sentence_mask@,
        }
    }
}

impl Parser {
    #[verifier::type_invariant]
    spec fn consistent(self) -> bool {
        &&& self.buflen <= self.capacity <= LENIENT_SENTENCE_LENGTH
        &&& self.parser_state != ParserState::WaitStart ==> self.chksum == checksum(
            self.buffer@.take(self.buflen as int),
        )
    }

    /// The view of a parser between frames that admits everything and
    /// accepts payloads of up to `capacity` bytes.
    pub open spec fn fresh(capacity: nat) -> ParserView {
        ParserView {
            state: ParserState::WaitStart,
            payload: Seq::empty(),
            expected_high: 0,
            capacity,
            sources: Set::full(),
            sentences: Set::full(),
        }
    }

    /// Constructs new Parser, which admits every source and every kind of
    /// sentence, and payloads of up to 79 bytes.
    pub fn new() -> (parser: Parser)
        ensures
            parser@ == Parser::fresh(MAX_SENTENCE_LENGTH as nat),
    {
        Parser {
            buffer: [0u8;120],
            buflen: 0,
            chksum: 0,
            expected_chksum: 0,
            parser_state: ParserState::WaitStart,
            capacity: MAX_SENTENCE_LENGTH,
            source_mask: SourceMask::default(),
            sentence_mask: SentenceMask::default(),
        }
    }

    /// Constructs a Parser as `new` does, for receivers that send longer
    /// sentences than the standard allows: payloads of up to 120 bytes.
    pub fn lenient() -> (parser: Parser)
        ensures
            parser@ == Parser::fresh(LENIENT_SENTENCE_LENGTH as nat),
    {
        Parser {
            buffer: [0u8;120],
            buflen: 0,
            chksum: 0,
            expected_chksum: 0,
            parser_state: ParserState::WaitStart,
            capacity: LENIENT_SENTENCE_LENGTH,
            source_mask: SourceMask::default(),
            sentence_mask: SentenceMask::default(),
        }
    }

    /// Accepts only that source.
    pub fn source_only(self, source: Source) -> (parser: Parser)
        ensures
            parser@ == (ParserView { sources: set![source], ..self@ }),
    {
        let mut parser = self;
        proof {
            use_type_invariant(&parser);
        }
        parser.source_mask = SourceMask::only(source);
        parser
    }

    /// Ignore all sources except given.
    pub fn source_filter(self, source_mask: SourceMask) -> (parser: Parser)
        ensures
            parser@ == (ParserView { sources: source_mask@, ..self@ }),
    {
        let mut parser = self;
        proof {
            use_type_invariant(&parser);
        }
        parser.source_mask = source_mask;
        parser
    }

    /// Accepts only that sentence.
    pub fn sentence_only(self, sentence: Sentence) -> (parser: Parser)
        ensures
            parser@ == (ParserView { sentences: set![sentence], ..self@ }),
    {
        let mut parser = self;
        proof {
            use_type_invariant(&parser);
        }
        parser.sentence_mask = SentenceMask::only(sentence);
        parser
    }

    /// Ignore all sentences except given.
    pub fn sentence_filter(self, sentence_mask: SentenceMask) -> (parser: Parser)
        ensures
            parser@ == (ParserView { sentences: sentence_mask@, ..self@ }),
    {
        let mut parser = self;
        proof {
            use_type_invariant(&parser);
        }
        parser.sentence_mask = sentence_mask;
        parser
    }

    fn parse_sentence(&self) -> (r: Result<Option<ParseResult>, ErrorKind>)
        requires
            self.parser_state != ParserState::WaitStart,
        ensures
            r == spec_decode_sentence(self@.payload, self@.sources, self@.sentences),
    {
        proof {
            use_type_invariant(self);
        }
        let payload = slice_subrange(self.buffer.as_slice(), 0, self.buflen);
        decode_sentence(payload, &self.source_mask, &self.sentence_mask)
    }

    /// Parse NMEA by one byte at a time. Returns Some if has enough data
    /// for parsing: once for each frame that ends in a record or an error.
    ///
    /// After every outcome, an error too, the parser stands between frames
    /// and waits for the next `$`.
    pub fn parse_from_byte(&mut self, symbol: u8) -> (r: Option<Outcome>)
        ensures
            (final(self)@, r) == old(self)@.step(symbol),
    {
        proof {
            use_type_invariant(&*self);
            reveal(ParserView::step);
        }
        match self.parser_state {
            ParserState::WaitStart => {
                if symbol == DOLLAR {
                    self.buflen = 0;
                    self.chksum = 0;
                    self.parser_state = ParserState::ReadUntilChkSum;
                    assert(self.buffer@.take(0) =~= Seq::empty());
                }
                None
            },
            ParserState::ReadUntilChkSum => {
                if symbol == STAR {
                    self.parser_state = ParserState::ChkSumUpper;
                    None
                } else if self.capacity <= self.buflen {
                    self.parser_state = ParserState::WaitStart;
                    Some(Err(ErrorKind::BufferOverflow))
                } else {
                    let ghost before = self.buffer@.take(self.buflen as int);
                    // Buffer, length and checksum change one after the other:
                    // the parser stands between frames while they do.
                    self.parser_state = ParserState::WaitStart;
                    self.buffer[self.buflen] = symbol;
                    self.buflen = self.buflen + 1;
                    self.chksum = self.chksum ^ symbol;
                    proof {
                        let after = self.buffer@.take(self.buflen as int);
                        assert(after =~= before.push(symbol));
                        assert(after.drop_last() =~= before);
                    }
                    self.parser_state = ParserState::ReadUntilChkSum;
                    None
                }
            },
            ParserState::ChkSumUpper => match parse_hex_halfbyte(symbol) {
                Ok(s) => {
                    self.expected_chksum = s;
                    self.parser_state = ParserState::ChkSumLower;
                    None
                },
                Err(e) => {
                    self.parser_state = ParserState::WaitStart;
                    Some(Err(e))
                },
            },
            ParserState::ChkSumLower => match parse_hex_halfbyte(symbol) {
                Ok(s) => {
                    if ((self.expected_chksum << 4) | s) != self.chksum {
                        self.parser_state = ParserState::WaitStart;
                        Some(Err(ErrorKind::ChecksumMismatch))
                    } else {
                        self.parser_state = ParserState::WaitCR;
                        None
                    }
                },
                Err(e) => {
                    self.parser_state = ParserState::WaitStart;
                    Some(Err(e))
                },
            },
            ParserState::WaitCR => {
                if symbol == CR {
                    self.parser_state = ParserState::WaitLF;
                    None
                } else {
                    self.parser_state = ParserState::WaitStart;
                    Some(Err(ErrorKind::FrameFormatError))
                }
            },
            ParserState::WaitLF => {
                if symbol == LF {
                    let decoded = self.parse_sentence();
                    self.parser_state = ParserState::WaitStart;
                    match decoded {
                        Ok(None) => None,
                        Ok(Some(result)) => Some(Ok(result)),
                        Err(e) => Some(Err(e)),
                    }
                } else {
                    self.parser_state = ParserState::WaitStart;
                    Some(Err(ErrorKind::FrameFormatError))
                }
            },
        }
    }
    /// Takes the parser's state and a slice of bytes, and returns an iterator
    /// that yields a record or an error whenever the bytes complete a frame.
    ///
    /// Nothing is read before the first call of `next`, and each call reads
    /// no further than the byte that completes its outcome. The parser is
    /// left where the last byte that was read left it: a frame that `input`
    /// ends in the middle of is continued by the next slice.
    pub fn parse_from_bytes<'a>(&'a mut self, input: &'a [u8]) -> (iter: ParserIterator<'a>)
        ensures
            iter.parser_view() == old(self)@,
            iter.remaining() == input@,
            *final(self) == *final(iter.parser),
    {
        ParserIterator::new(self, input)
    }

    /// Feeds every byte of `input` to `parse_from_byte`, and returns the
    /// outcomes in the order in which they came.
    ///
    /// The parser is left where the last byte left it: a frame that `input`
    /// ends in the middle of is continued by the next call.
    pub fn collect_from_bytes(&mut self, input: &[u8]) -> (outcomes: Vec<Outcome>)
        ensures
            (final(self)@, outcomes@) == old(self)@.run(input@),
    {
        let mut outcomes: Vec<Outcome> = Vec::new();
        let n: usize = input.len();
        let mut i: usize = 0;
        while i < n
            invariant
                n == input@.len(),
                0 <= i <= n,
                (self@, outcomes@) == old(self)@.run(input@.take(i as int)),
            decreases n - i,
        {
            proof {
                assert(input@.take(i + 1).drop_last() =~= input@.take(i as int));
            }
            match self.parse_from_byte(input[i]) {
                Some(outcome) => {
                    outcomes.push(outcome);
                },
                None => {},
            }
            i = i + 1;
        }
        proof {
            assert(input@.take(n as int) =~= input@);
        }
        outcomes
    }
}

/// The outcomes of a slice of bytes, each worked out when it is asked for.
pub struct ParserIterator<'a> {
    /// The parser that reads the bytes.
    pub parser: &'a mut Parser,
    /// The bytes.
    pub input: &'a [u8],
    /// How many of the bytes were read.
    pub pos: usize,
}

impl<'a> ParserIterator<'a> {
    /// The parser as the bytes read so far have left it.
    pub open spec fn parser_view(&self) -> ParserView {
        (*self.parser)@
    }

    /// The bytes that were not read yet.
    pub open spec fn remaining(&self) -> Seq<u8> {
        if self.pos <= self.input@.len() {
            self.input@.skip(self.pos as int)
        } else {
            Seq::empty()
        }
    }

    /// An iterator over the outcomes that `inp` completes, from the state
    /// that `p` is in. When the iterator is let go, `p` is as the iterator
    /// left it.
    pub fn new(p: &'a mut Parser, inp: &'a [u8]) -> (iter: ParserIterator<'a>)
        ensures
            iter.parser_view() == old(p)@,
            iter.remaining() == inp@,
            *final(p) == *final(iter.parser),
    {
        assert(inp@.skip(0) =~= inp@);
        ParserIterator { parser: p, input: inp, pos: 0 }
    }

    /// Reads on up to the byte that completes an outcome, and returns the
    /// outcome; or reads all that is left, and returns nothing.
    pub fn next(&mut self) -> (r: Option<Outcome>)
        ensures
            (final(self).parser_view(), final(self).remaining(), r) == old(
                self,
            ).parser_view().next_outcome(old(self).remaining()),
            *final(final(self).parser) == *final(old(self).parser),
            final(self).input == old(self).input,
    {
        while self.pos < self.input.len()
            invariant
                self.input == old(self).input,
                *final(self.parser) == *final(old(self).parser),
                self.parser_view().next_outcome(self.remaining()) == old(
                    self,
                ).parser_view().next_outcome(old(self).remaining()),
            decreases self.input@.len() - self.pos,
        {
            let symbol: u8 = self.input[self.pos];
            let ghost before = self.remaining();
            assert(before[0] == symbol);
            self.pos = self.pos + 1;
            assert(self.remaining() =~= before.skip(1));
            match self.parser.parse_from_byte(symbol) {
                Some(outcome) => {
                    return Some(outcome);
                },
                None => {},
            }
        }
        assert(self.remaining().len() == 0);
        assert(self.remaining() =~= Seq::<u8>::empty());
        None
    }
}

} // verus!
