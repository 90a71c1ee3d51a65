//! What holds of the framer for every stream of bytes.

use crate::dispatch::spec_decode_sentence;
use crate::error::ErrorKind;
use crate::parser::{
    checksum, checksum_byte, hex_value, outcome_of, Outcome, ParserState, ParserView, CR, DOLLAR,
    LF, STAR,
};
use vstd::prelude::*;

verus! {

/// Whether `b` occurs nowhere in `s`.
pub open spec fn without(s: Seq<u8>, b: u8) -> bool {
    forall|i: int| 0 <= i < s.len() ==> #[trigger] s[i] != b
}

/// The bytes of a frame: `$`, the payload, `*`, the two checksum digits,
/// carriage return and line feed.
pub open spec fn frame(payload: Seq<u8>, high: u8, low: u8) -> Seq<u8> {
    seq![DOLLAR] + payload + seq![STAR, high, low, CR, LF]
}

/// The outcomes of a frame that came through whole: that of its sentence,
/// or none if the sentence was filtered out.
pub open spec fn outcomes_of(v: ParserView, payload: Seq<u8>) -> Seq<Outcome> {
    match outcome_of(spec_decode_sentence(payload, v.sources, v.sentences)) {
        Some(outcome) => seq![outcome],
        None => Seq::empty(),
    }
}

/// One more byte is one more step.
pub proof fn lemma_run_push(v: ParserView, input: Seq<u8>, symbol: u8)
    ensures
        v.run(input.push(symbol)) == ({
            let (before, outcomes) = v.run(input);
            let (after, outcome) = before.step(symbol);
            match outcome {
                Some(o) => (after, outcomes.push(o)),
                None => (after, outcomes),
            }
        }),
{
    assert(input.push(symbol).drop_last() =~= input);
}

/// Streaming equivalence: a stream fed whole, and the same stream fed in
/// two pieces split at any byte, leave the parser in the same state and give
/// the same outcomes in the same order.
pub proof fn lemma_streaming_equivalence(v: ParserView, first: Seq<u8>, second: Seq<u8>)
    ensures
        v.run(first + second) == (
            v.run(first).0.run(second).0,
            v.run(first).1 + v.run(first).0.run(second).1,
        ),
    decreases second.len(),
{
    let (middle, early) = v.run(first);
    if second.len() == 0 {
        assert(first + second =~= first);
        assert(early + Seq::<Outcome>::empty() =~= early);
    } else {
        let shorter = second.drop_last();
        lemma_streaming_equivalence(v, first, shorter);
        assert((first + second).drop_last() =~= first + shorter);
        assert((first + second).last() == second.last());
        let (before, late) = middle.run(shorter);
        let (after, outcome) = before.step(second.last());
        match outcome {
            Some(o) => {
                assert((early + late).push(o) =~= early + late.push(o));
            },
            None => {},
        }
    }
}

/// Outcomes taken one at a time are those of the whole stream.
///
/// The first outcome of a stream, and then the outcomes of what follows the
/// byte that completed it, are the outcomes of the stream; and a stream
/// without a first outcome has none.
pub proof fn lemma_next_outcome(v: ParserView, input: Seq<u8>)
    ensures
        ({
            let (after, rest, outcome) = v.next_outcome(input);
            match outcome {
                Some(o) => v.run(input) == (after.run(rest).0, seq![o] + after.run(rest).1),
                None => rest.len() == 0 && v.run(input) == (after, Seq::<Outcome>::empty()),
            }
        }),
    decreases input.len(),
{
    if input.len() > 0 {
        let head = Seq::<u8>::empty().push(input[0]);
        let tail = input.skip(1);
        let (stepped, first) = v.step(input[0]);
        assert(input =~= head + tail);
        lemma_run_push(v, Seq::empty(), input[0]);
        lemma_streaming_equivalence(v, head, tail);
        match first {
            Some(o) => {
                assert(Seq::<Outcome>::empty().push(o) =~= seq![o]);
            },
            None => {
                lemma_next_outcome(stepped, tail);
                let (after, rest, outcome) = stepped.next_outcome(tail);
                match outcome {
                    Some(o) => {
                        assert(Seq::<Outcome>::empty() + (seq![o] + after.run(rest).1) =~= seq![o]
                            + after.run(rest).1);
                    },
                    None => {
                        assert(Seq::<Outcome>::empty() + Seq::<Outcome>::empty()
                            =~= Seq::<Outcome>::empty());
                    },
                }
            },
        }
    }
}

/// Whatever the byte and the state, a byte that completes an outcome leaves
/// the parser between frames, with its configuration unchanged: after a
/// record and after every error it waits for the next `$`.
pub proof fn lemma_outcome_returns_to_start(v: ParserView, symbol: u8)
    ensures
        v.step(symbol).1 is Some ==> v.step(symbol).0 == v.idle(),
        v.step(symbol).0.capacity == v.capacity,
        v.step(symbol).0.sources == v.sources,
        v.step(symbol).0.sentences == v.sentences,
{
    reveal(ParserView::step);
}

/// Before the line feed that ends a frame no field was read: an error that
/// comes earlier is one of the framer's own.
pub proof fn lemma_framing_errors(v: ParserView, symbol: u8)
    requires
        v.state != ParserState::WaitLF,
    ensures
        v.step(symbol).1 matches Some(outcome) ==> outcome is Err && outcome->Err_0.is_framing(),
{
    reveal(ParserView::step);
}

/// Between frames, bytes other than `$` change nothing and give no outcome.
pub proof fn lemma_skips_junk(v: ParserView, junk: Seq<u8>)
    requires
        v.state == ParserState::WaitStart,
        without(junk, DOLLAR),
    ensures
        v.run(junk) == (
            if junk.len() == 0 {
                v
            } else {
                v.idle()
            },
            Seq::<Outcome>::empty(),
        ),
    decreases junk.len(),
{
    if junk.len() > 0 {
        let shorter = junk.drop_last();
        assert forall|i: int| 0 <= i < shorter.len() implies #[trigger] shorter[i] != DOLLAR by {
            assert(shorter[i] == junk[i]);
        }
        lemma_skips_junk(v, shorter);
        assert(junk.last() == junk[junk.len() - 1]);
        assert(v.step(junk.last()) == (v.idle(), None::<Outcome>)) by {
            reveal(ParserView::step);
        }
        assert(v.idle().step(junk.last()) == (v.idle(), None::<Outcome>)) by {
            reveal(ParserView::step);
        }
    }
}

/// After `$`, payload bytes are gathered without an outcome for as long as
/// they fit.
pub proof fn lemma_reads_payload(v: ParserView, payload: Seq<u8>)
    requires
        v.state == ParserState::WaitStart,
        without(payload, STAR),
        payload.len() <= v.capacity,
    ensures
        v.run(seq![DOLLAR] + payload) == (
            ParserView { state: ParserState::ReadUntilChkSum, payload, ..v.idle() },
            Seq::<Outcome>::empty(),
        ),
    decreases payload.len(),
{
    let reading = ParserView { state: ParserState::ReadUntilChkSum, payload, ..v.idle() };
    if payload.len() == 0 {
        assert(seq![DOLLAR] + payload =~= Seq::<u8>::empty().push(DOLLAR));
        lemma_run_push(v, Seq::empty(), DOLLAR);
        assert(v.run(Seq::empty()) == (v, Seq::<Outcome>::empty()));
        assert(payload =~= Seq::<u8>::empty());
        assert(v.step(DOLLAR) == (reading, None::<Outcome>)) by {
            reveal(ParserView::step);
        }
    } else {
        let shorter = payload.drop_last();
        assert forall|i: int| 0 <= i < shorter.len() implies #[trigger] shorter[i] != STAR by {
            assert(shorter[i] == payload[i]);
        }
        lemma_reads_payload(v, shorter);
        assert(seq![DOLLAR] + payload =~= (seq![DOLLAR] + shorter).push(payload.last()));
        lemma_run_push(v, seq![DOLLAR] + shorter, payload.last());
        assert(payload.last() == payload[payload.len() - 1]);
        assert(shorter.push(payload.last()) =~= payload);
        let before = ParserView { state: ParserState::ReadUntilChkSum, payload: shorter, ..v.idle() };
        assert(before.step(payload.last()) == (reading, None::<Outcome>)) by {
            reveal(ParserView::step);
        }
    }
}

/// A frame that is well-formed is decoded, whatever was in the buffer
/// before it.
///
/// From between frames, a frame whose payload fits and whose checksum
/// digits denote the XOR of the payload gives exactly the outcome of its
/// sentence, and leaves the parser between frames again.
pub proof fn lemma_well_formed_frame(v: ParserView, payload: Seq<u8>, high: u8, low: u8)
    requires
        v.state == ParserState::WaitStart,
        without(payload, STAR),
        payload.len() <= v.capacity,
        hex_value(high) is Some,
        hex_value(low) is Some,
        checksum_byte(hex_value(high)->0, hex_value(low)->0) == checksum(payload),
    ensures
        v.run(frame(payload, high, low)) == (v.idle(), outcomes_of(v, payload)),
{
    let start = seq![DOLLAR] + payload;
    let reading = ParserView { state: ParserState::ReadUntilChkSum, payload, ..v.idle() };
    let upper = reading.at(ParserState::ChkSumUpper);
    let lower = ParserView {
        state: ParserState::ChkSumLower,
        expected_high: hex_value(high)->0,
        ..reading
    };
    let wait_cr = reading.at(ParserState::WaitCR);
    let wait_lf = reading.at(ParserState::WaitLF);
    lemma_reads_payload(v, payload);
    lemma_run_push(v, start, STAR);
    assert(reading.step(STAR) == (upper, None::<Outcome>)) by {
        reveal(ParserView::step);
    }
    lemma_run_push(v, start.push(STAR), high);
    assert(upper.step(high) == (lower, None::<Outcome>)) by {
        reveal(ParserView::step);
    }
    lemma_run_push(v, start.push(STAR).push(high), low);
    assert(lower.step(low) == (wait_cr, None::<Outcome>)) by {
        reveal(ParserView::step);
    }
    lemma_run_push(v, start.push(STAR).push(high).push(low), CR);
    assert(wait_cr.step(CR) == (wait_lf, None::<Outcome>)) by {
        reveal(ParserView::step);
    }
    lemma_run_push(v, start.push(STAR).push(high).push(low).push(CR), LF);
    assert(wait_lf.step(LF) == (
        v.idle(),
        outcome_of(spec_decode_sentence(payload, v.sources, v.sentences)),
    )) by {
        reveal(ParserView::step);
    }
    assert(frame(payload, high, low) =~= start.push(STAR).push(high).push(low).push(CR).push(LF));
    match outcome_of(spec_decode_sentence(payload, v.sources, v.sentences)) {
        Some(outcome) => {
            assert(Seq::<Outcome>::empty().push(outcome) =~= seq![outcome]);
        },
        None => {},
    }
}

/// Garbage before a frame does no harm.
///
/// From between frames: any bytes without `$`, then a well-formed frame,
/// give exactly the outcome of the frame's sentence, once.
pub proof fn lemma_junk_then_frame(
    v: ParserView,
    junk: Seq<u8>,
    payload: Seq<u8>,
    high: u8,
    low: u8,
)
    requires
        v.state == ParserState::WaitStart,
        without(junk, DOLLAR),
        without(payload, STAR),
        payload.len() <= v.capacity,
        hex_value(high) is Some,
        hex_value(low) is Some,
        checksum_byte(hex_value(high)->0, hex_value(low)->0) == checksum(payload),
    ensures
        v.run(junk + frame(payload, high, low)) == (v.idle(), outcomes_of(v, payload)),
{
    lemma_skips_junk(v, junk);
    lemma_streaming_equivalence(v, junk, frame(payload, high, low));
    lemma_well_formed_frame(v, payload, high, low);
    lemma_well_formed_frame(v.idle(), payload, high, low);
    assert(Seq::<Outcome>::empty() + outcomes_of(v, payload) =~= outcomes_of(v, payload));
}

/// A frame with a corrupted checksum is a checksum mismatch and never a
/// record.
///
/// From between frames, a frame whose payload fits and whose checksum
/// digits denote another byte than the XOR of the payload gives the one
/// outcome `ChecksumMismatch`, and leaves the parser between frames.
pub proof fn lemma_corrupted_checksum(v: ParserView, payload: Seq<u8>, high: u8, low: u8)
    requires
        v.state == ParserState::WaitStart,
        without(payload, STAR),
        payload.len() <= v.capacity,
        hex_value(high) is Some,
        hex_value(low) is Some,
        checksum_byte(hex_value(high)->0, hex_value(low)->0) != checksum(payload),
    ensures
        v.run(frame(payload, high, low)) == (
            v.idle(),
            seq![Err::<crate::dispatch::ParseResult, ErrorKind>(ErrorKind::ChecksumMismatch)],
        ),
{
    let start = seq![DOLLAR] + payload;
    let reading = ParserView { state: ParserState::ReadUntilChkSum, payload, ..v.idle() };
    let upper = reading.at(ParserState::ChkSumUpper);
    let lower = ParserView {
        state: ParserState::ChkSumLower,
        expected_high: hex_value(high)->0,
        ..reading
    };
    lemma_reads_payload(v, payload);
    lemma_run_push(v, start, STAR);
    assert(reading.step(STAR) == (upper, None::<Outcome>)) by {
        reveal(ParserView::step);
    }
    lemma_run_push(v, start.push(STAR), high);
    assert(upper.step(high) == (lower, None::<Outcome>)) by {
        reveal(ParserView::step);
    }
    lemma_run_push(v, start.push(STAR).push(high), low);
    assert(lower.step(low) == (
        v.idle(),
        Some(Err::<crate::dispatch::ParseResult, ErrorKind>(ErrorKind::ChecksumMismatch)),
    )) by {
        reveal(ParserView::step);
    }
    lemma_run_push(v, start.push(STAR).push(high).push(low), CR);
    assert(v.idle().step(CR) == (v.idle(), None::<Outcome>)) by {
        reveal(ParserView::step);
    }
    lemma_run_push(v, start.push(STAR).push(high).push(low).push(CR), LF);
    assert(v.idle().step(LF) == (v.idle(), None::<Outcome>)) by {
        reveal(ParserView::step);
    }
    assert(frame(payload, high, low) =~= start.push(STAR).push(high).push(low).push(CR).push(LF));
    assert(Seq::<Outcome>::empty().push(Err(ErrorKind::ChecksumMismatch)) =~= seq![
        Err::<crate::dispatch::ParseResult, ErrorKind>(ErrorKind::ChecksumMismatch),
    ]);
}

/// A payload that is one byte longer than the capacity is a buffer
/// overflow.
///
/// From between frames, `$` and then one byte more than fit, none of them
/// `*`, give the one outcome `BufferOverflow` at the last of those bytes, and
/// leave the parser between frames.
pub proof fn lemma_overflow(v: ParserView, long: Seq<u8>)
    requires
        v.state == ParserState::WaitStart,
        without(long, STAR),
        long.len() == v.capacity + 1,
    ensures
        v.run(seq![DOLLAR] + long) == (
            v.idle(),
            seq![Err::<crate::dispatch::ParseResult, ErrorKind>(ErrorKind::BufferOverflow)],
        ),
{
    let fits = long.drop_last();
    assert forall|i: int| 0 <= i < fits.len() implies #[trigger] fits[i] != STAR by {
        assert(fits[i] == long[i]);
    }
    lemma_reads_payload(v, fits);
    assert(seq![DOLLAR] + long =~= (seq![DOLLAR] + fits).push(long.last()));
    lemma_run_push(v, seq![DOLLAR] + fits, long.last());
    assert(long.last() == long[long.len() - 1]);
    let full = ParserView { state: ParserState::ReadUntilChkSum, payload: fits, ..v.idle() };
    assert(full.step(long.last()) == (
        v.idle(),
        Some(Err::<crate::dispatch::ParseResult, ErrorKind>(ErrorKind::BufferOverflow)),
    )) by {
        reveal(ParserView::step);
    }
    assert(Seq::<Outcome>::empty().push(Err(ErrorKind::BufferOverflow)) =~= seq![
        Err::<crate::dispatch::ParseResult, ErrorKind>(ErrorKind::BufferOverflow),
    ]);
}

/// After a buffer overflow the next well-formed frame is decoded, with no
/// reset in between.
///
/// From between frames: a payload that overflows, then any bytes without
/// `$`, then a well-formed frame, give `BufferOverflow` and then exactly the
/// outcome of the frame's sentence.
pub proof fn lemma_overflow_then_frame(
    v: ParserView,
    long: Seq<u8>,
    junk: Seq<u8>,
    payload: Seq<u8>,
    high: u8,
    low: u8,
)
    requires
        v.state == ParserState::WaitStart,
        without(long, STAR),
        long.len() == v.capacity + 1,
        without(junk, DOLLAR),
        without(payload, STAR),
        payload.len() <= v.capacity,
        hex_value(high) is Some,
        hex_value(low) is Some,
        checksum_byte(hex_value(high)->0, hex_value(low)->0) == checksum(payload),
    ensures
        v.run(seq![DOLLAR] + long + junk + frame(payload, high, low)) == (
            v.idle(),
            seq![Err::<crate::dispatch::ParseResult, ErrorKind>(ErrorKind::BufferOverflow)]
                + outcomes_of(v, payload),
        ),
{
    let head = seq![DOLLAR] + long;
    lemma_overflow(v, long);
    lemma_skips_junk(v.idle(), junk);
    lemma_streaming_equivalence(v, head, junk);
    assert(v.run(head + junk).0 == v.idle());
    assert(v.run(head + junk).1 =~= v.run(head).1);
    lemma_well_formed_frame(v.idle(), payload, high, low);
    lemma_streaming_equivalence(v, head + junk, frame(payload, high, low));
}

} // verus!
