//! The comma-separated tokens of a sentence, handed out one at a time.

use crate::common::{find_from, first_index_of, lemma_first_index_of, token_view};
use vstd::prelude::*;
use vstd::slice::slice_subrange;

verus! {

/// ASCII `,`.
pub const COMMA: u8 = 0x2C;

/// The tokens of `s`: the stretches between its commas, in order.
///
/// A text with `n` commas has `n + 1` tokens; the empty text has one, which
/// is empty.
pub open spec fn split_fields(s: Seq<u8>) -> Seq<Seq<u8>>
    decreases s.len(),
{
    let p = first_index_of(s, COMMA);
    if 0 <= p < s.len() {
        seq![s.take(p)] + split_fields(s.skip(p + 1))
    } else {
        seq![s]
    }
}

/// The token at position `k`, or nothing if the sentence ended before it.
pub open spec fn field_at(tokens: Seq<Seq<u8>>, k: int) -> Option<Seq<u8>> {
    if 0 <= k < tokens.len() {
        Some(tokens[k])
    } else {
        None
    }
}

/// What is left of `tokens` once `k` of them were taken.
pub open spec fn fields_after(tokens: Seq<Seq<u8>>, k: int) -> Seq<Seq<u8>> {
    if 0 <= k < tokens.len() {
        tokens.skip(k)
    } else {
        Seq::empty()
    }
}

/// Whether `token` is the single byte `b`.
pub fn is_byte(token: &[u8], b: u8) -> (r: bool)
    ensures
        r == (token@ == seq![b]),
{
    let r = token.len() == 1 && token[0] == b;
    proof {
        if r {
            assert(token@ =~= seq![b]);
        } else if token@ == seq![b] {
            assert(seq![b].len() == 1);
            assert(seq![b][0] == b);
        }
    }
    r
}

/// A cursor over the tokens of one sentence.
///
/// Its view is the sequence of tokens not yet handed out.
pub struct Fields<'a> {
    data: &'a [u8],
    pos: usize,
    done: bool,
}

impl<'a> View for Fields<'a> {
    type V = Seq<Seq<u8>>;

    closed spec fn view(&self) -> Seq<Seq<u8>> {
        if self.done {
            Seq::empty()
        } else {
            split_fields(self.data@.skip(self.pos as int))
        }
    }
}

impl<'a> Fields<'a> {
    #[verifier::type_invariant]
    spec fn in_bounds(self) -> bool {
        self.pos <= self.data@.len()
    }

    /// A cursor before the first token of `data`.
    pub fn new(data: &'a [u8]) -> (fields: Fields<'a>)
        ensures
            fields@ == split_fields(data@),
    {
        assert(data@.skip(0) =~= data@);
        Fields { data, pos: 0, done: false }
    }

    /// Hands out the next token, or nothing once the sentence has ended.
    pub fn next(&mut self) -> (token: Option<&'a [u8]>)
        ensures
            token_view(token) == field_at(old(self)@, 0),
            final(self)@ == fields_after(old(self)@, 1),
            forall|tokens: Seq<Seq<u8>>, k: int|
                k >= 0 && old(self)@ == #[trigger] fields_after(tokens, k) ==> token_view(token)
                    == field_at(tokens, k) && final(self)@ == fields_after(tokens, k + 1),
    {
        proof {
            use_type_invariant(&*self);
            assert forall|tokens: Seq<Seq<u8>>, k: int|
                k >= 0 && old(self)@ == #[trigger] fields_after(tokens, k) implies field_at(
                old(self)@,
                0,
            ) == field_at(tokens, k) && fields_after(old(self)@, 1) == fields_after(
                tokens,
                k + 1,
            ) by {
                lemma_fields_after_step(tokens, k);
            }
        }
        if self.done {
            return None;
        }
        let n: usize = self.data.len();
        let start: usize = self.pos;
        let ghost rest = self.data@.skip(start as int);
        let p: usize = find_from(self.data, start, COMMA);
        proof {
            lemma_first_index_of(rest, COMMA);
        }
        let token = slice_subrange(self.data, start, p);
        if p < n {
            self.pos = p + 1;
            proof {
                assert(token@ =~= rest.take(p - start));
                assert(self.data@.skip(p + 1) =~= rest.skip(p - start + 1));
                let tail = split_fields(rest.skip(p - start + 1));
                assert((seq![rest.take(p - start)] + tail).skip(1) =~= tail);
                lemma_split_nonempty(rest.skip(p - start + 1));
            }
        } else {
            self.done = true;
            proof {
                assert(token@ =~= rest);
                assert(seq![rest].skip(1) =~= Seq::<Seq<u8>>::empty());
            }
        }
        Some(token)
    }
}

/// Taking `k` tokens and then one more is taking `k + 1`, and the first
/// token of what `k` leave is the token at `k`.
pub proof fn lemma_fields_after_step(tokens: Seq<Seq<u8>>, k: int)
    requires
        k >= 0,
    ensures
        field_at(fields_after(tokens, k), 0) == field_at(tokens, k),
        fields_after(fields_after(tokens, k), 1) == fields_after(tokens, k + 1),
{
    if k < tokens.len() {
        if k + 1 < tokens.len() {
            assert(tokens.skip(k).skip(1) =~= tokens.skip(k + 1));
        }
    }
}

/// Taking no token leaves all of them.
pub proof fn lemma_fields_after_zero(tokens: Seq<Seq<u8>>)
    ensures
        fields_after(tokens, 0) == tokens,
{
    assert(fields_after(tokens, 0) =~= tokens);
}

/// Every text has at least one token.
pub proof fn lemma_split_nonempty(s: Seq<u8>)
    ensures
        split_fields(s).len() >= 1,
{
}

} // verus!
