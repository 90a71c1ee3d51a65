//! Where a sentence comes from, what kind it is, and the sets of either
//! that a parser admits.

use crate::error::ErrorKind;
use crate::modes::{LETTER_A, LETTER_D, LETTER_M, LETTER_N, LETTER_S, LETTER_V};
use vstd::prelude::*;

verus! {

/// ASCII `B`.
pub const LETTER_B: u8 = 0x42;

/// ASCII `C`.
pub const LETTER_C: u8 = 0x43;

/// ASCII `F`.
pub const LETTER_F: u8 = 0x46;

/// ASCII `G`.
pub const LETTER_G: u8 = 0x47;

/// ASCII `K`.
pub const LETTER_K: u8 = 0x4B;

/// ASCII `L`.
pub const LETTER_L: u8 = 0x4C;

/// ASCII `P`.
pub const LETTER_P: u8 = 0x50;

/// ASCII `R`.
pub const LETTER_R: u8 = 0x52;

/// ASCII `T`.
pub const LETTER_T: u8 = 0x54;

/// Whether `s` is the three bytes `a`, `b`, `c`.
pub fn is_code(s: &[u8], a: u8, b: u8, c: u8) -> (r: bool)
    ensures
        r == (s@ == seq![a, b, c]),
{
    let r = s.len() == 3 && s[0] == a && s[1] == b && s[2] == c;
    proof {
        let code = seq![a, b, c];
        assert(code.len() == 3 && code[0] == a && code[1] == b && code[2] == c);
        if r {
            assert(s@ =~= code);
        }
    }
    r
}

/// A mask with the one bit at `index` set is tested by the bit at `other`
/// exactly when the two are the same bit.
proof fn lemma_single_bit(index: u32, other: u32)
    requires
        index < 32,
        other < 32,
    ensures
        ((1u32 << index) & (1u32 << other) != 0) <==> index == other,
{
    assert(index < 32 && other < 32 ==> (((1u32 << index) & (1u32 << other) != 0) <==> index
        == other)) by (bit_vector);
}

/// Setting the bit at `index` in a mask adds that bit to those it is tested
/// by, and no other.
proof fn lemma_added_bit(mask: u32, index: u32, other: u32)
    requires
        index < 32,
        other < 32,
    ensures
        ((mask | (1u32 << index)) & (1u32 << other) != 0) <==> (mask & (1u32 << other) != 0
            || index == other),
{
    assert(index < 32 && other < 32 ==> ((((mask | (1u32 << index)) & (1u32 << other)) != 0) <==> (
    (mask & (1u32 << other)) != 0 || index == other))) by (bit_vector);
}

/// The mask of all ones is tested by every bit.
proof fn lemma_every_bit(other: u32)
    requires
        other < 32,
    ensures
        0xFFFF_FFFFu32 & (1u32 << other) != 0,
{
    assert(other < 32 ==> 0xFFFF_FFFFu32 & (1u32 << other) != 0) by (bit_vector);
}

/// The bits that the variants of this module are kept as.
proof fn lemma_bit_values()
    ensures
        1u32 << 0u32 == 1,
        1u32 << 1u32 == 2,
        1u32 << 2u32 == 4,
        1u32 << 3u32 == 8,
        1u32 << 4u32 == 16,
        1u32 << 5u32 == 32,
        1u32 << 6u32 == 64,
{
    assert(1u32 << 0u32 == 1) by (bit_vector);
    assert(1u32 << 1u32 == 2) by (bit_vector);
    assert(1u32 << 2u32 == 4) by (bit_vector);
    assert(1u32 << 3u32 == 8) by (bit_vector);
    assert(1u32 << 4u32 == 16) by (bit_vector);
    assert(1u32 << 5u32 == 32) by (bit_vector);
    assert(1u32 << 6u32 == 64) by (bit_vector);
}

/// Source of NMEA sentence like GPS, GLONASS or other.
#[derive(Debug, Clone, Copy, PartialEq, Eq, Structural)]
pub enum Source {
    /// USA Global Positioning System. Talker `GP`.
    GPS,
    /// Russian Federation GLONASS. Talker `GL`.
    GLONASS,
    /// European Union Gallileo. Talker `GA`.
    Gallileo,
    /// China's Beidou. Talker `BD`.
    Beidou,
    /// Global Navigation Sattelite System. Some combination of other
    /// systems. Depends on receiver model, receiver settings, etc. Talker
    /// `GN`.
    GNSS,
    /// MediaTek NMEA packet protocol. Talker `PM`.
    MTK,
}

impl Source {
    /// The position of the source's bit in a mask.
    pub open spec fn index(self) -> u32 {
        match self {
            Source::GPS => 0,
            Source::GLONASS => 1,
            Source::Gallileo => 2,
            Source::Beidou => 3,
            Source::GNSS => 4,
            Source::MTK => 5,
        }
    }

    /// The source that the two talker letters name, if any.
    pub open spec fn from_talker(a: u8, b: u8) -> Option<Source> {
        if a == LETTER_G && b == LETTER_P {
            Some(Source::GPS)
        } else if a == LETTER_G && b == LETTER_L {
            Some(Source::GLONASS)
        } else if a == LETTER_G && b == LETTER_A {
            Some(Source::Gallileo)
        } else if a == LETTER_B && b == LETTER_D {
            Some(Source::Beidou)
        } else if a == LETTER_G && b == LETTER_N {
            Some(Source::GNSS)
        } else if a == LETTER_P && b == LETTER_M {
            Some(Source::MTK)
        } else {
            None
        }
    }

    /// What `try_from` returns for a token of two bytes at least.
    pub open spec fn spec_try_from(from: Seq<u8>) -> Result<Source, ErrorKind> {
        match Source::from_talker(from[0], from[1]) {
            Some(source) => Ok(source),
            None => Err(ErrorKind::UnsupportedSource),
        }
    }

    fn bit(self) -> (r: u32)
        ensures
            r == 1u32 << self.index(),
    {
        proof {
            lemma_bit_values();
        }
        match self {
            Source::GPS => 1,
            Source::GLONASS => 2,
            Source::Gallileo => 4,
            Source::Beidou => 8,
            Source::GNSS => 16,
            Source::MTK => 32,
        }
    }

    /// The source named by the first two bytes of `from`, the talker
    /// identifier, or `UnsupportedSource` if they name none.
    pub fn try_from(from: &[u8]) -> (r: Result<Source, ErrorKind>)
        requires
            from@.len() >= 2,
        ensures
            r == Source::spec_try_from(from@),
    {
        let a: u8 = from[0];
        let b: u8 = from[1];
        if a == LETTER_G && b == LETTER_P {
            Ok(Source::GPS)
        } else if a == LETTER_G && b == LETTER_L {
            Ok(Source::GLONASS)
        } else if a == LETTER_G && b == LETTER_A {
            Ok(Source::Gallileo)
        } else if a == LETTER_B && b == LETTER_D {
            Ok(Source::Beidou)
        } else if a == LETTER_G && b == LETTER_N {
            Ok(Source::GNSS)
        } else if a == LETTER_P && b == LETTER_M {
            Ok(Source::MTK)
        } else {
            Err(ErrorKind::UnsupportedSource)
        }
    }
}

/// Mask for Source filter in Parser: the set of sources that it admits.
#[derive(Debug, Clone, Copy, PartialEq, Eq, Structural)]
pub struct SourceMask {
    mask: u32,
}

impl View for SourceMask {
    type V = Set<Source>;

    closed spec fn view(&self) -> Set<Source> {
        Set::new(|s: Source| self.mask & (1u32 << s.index()) != 0)
    }
}

impl SourceMask {
    /// The mask that admits `source` and no other.
    pub fn only(source: Source) -> (r: SourceMask)
        ensures
            r@ == set![source],
    {
        let r = SourceMask { mask: source.bit() };
        proof {
            assert forall|s: Source| r@.contains(s) == set![source].contains(s) by {
                lemma_single_bit(source.index(), s.index());
            }
            assert(r@ =~= set![source]);
        }
        r
    }

    /// Whether sentences of `source` are to be dropped: whether the mask
    /// does not hold it.
    pub fn is_masked(&self, source: Source) -> (r: bool)
        ensures
            r == !self@.contains(source),
    {
        self.mask & source.bit() == 0
    }
}

impl Default for SourceMask {
    /// The mask that admits every source.
    fn default() -> (r: SourceMask)
        ensures
            r@ == Set::<Source>::full(),
    {
        let r = SourceMask { mask: 0xFFFF_FFFF };
        proof {
            assert forall|s: Source| r@.contains(s) by {
                lemma_every_bit(s.index());
            }
            assert(r@ =~= Set::<Source>::full());
        }
        r
    }
}

impl vstd::std_specs::ops::BitOrSpecImpl for Source {
    open spec fn obeys_bitor_spec() -> bool {
        true
    }

    open spec fn bitor_req(self, rhs: Source) -> bool {
        true
    }

    closed spec fn bitor_spec(self, rhs: Source) -> SourceMask {
        SourceMask { mask: (1u32 << self.index()) | (1u32 << rhs.index()) }
    }
}

impl core::ops::BitOr for Source {
    type Output = SourceMask;

    /// The mask that admits the two sources.
    fn bitor(self, rhs: Source) -> (r: SourceMask)
        ensures
            r@ == set![self, rhs],
    {
        let r = SourceMask { mask: self.bit() | rhs.bit() };
        proof {
            assert forall|s: Source| r@.contains(s) == set![self, rhs].contains(s) by {
                lemma_added_bit(1u32 << self.index(), rhs.index(), s.index());
                lemma_single_bit(self.index(), s.index());
            }
            assert(r@ =~= set![self, rhs]);
        }
        r
    }
}

impl vstd::std_specs::ops::BitOrSpecImpl<Source> for SourceMask {
    open spec fn obeys_bitor_spec() -> bool {
        true
    }

    open spec fn bitor_req(self, rhs: Source) -> bool {
        true
    }

    closed spec fn bitor_spec(self, rhs: Source) -> SourceMask {
        SourceMask { mask: self.mask | (1u32 << rhs.index()) }
    }
}

impl core::ops::BitOr<Source> for SourceMask {
    type Output = SourceMask;

    /// The mask with `rhs` added to what it admits.
    fn bitor(self, rhs: Source) -> (r: SourceMask)
        ensures
            r@ == self@.insert(rhs),
    {
        let r = SourceMask { mask: self.mask | rhs.bit() };
        proof {
            assert forall|s: Source| r@.contains(s) == self@.insert(rhs).contains(s) by {
                lemma_added_bit(self.mask, rhs.index(), s.index());
            }
            assert(r@ =~= self@.insert(rhs));
        }
        r
    }
}

/// Various kinds of NMEA sentence like RMC, VTG or other. Used for filter
/// by sentence type in Parser.
#[derive(Debug, Clone, Copy, PartialEq, Eq, Structural)]
pub enum Sentence {
    /// Recommended minimum sentence.
    RMC,
    /// Course over ground.
    VTG,
    /// Geographic coordinates including altitude, GPS solution quality, DGPS
    /// usage information.
    GGA,
    /// Geographic latitude ang longitude sentence with time of fix and
    /// receiver state.
    GLL,
    /// MTK properitary messages.
    PMTK,
    /// Satellites in views.
    GSV,
    /// GPS DOP and active satellites.
    GSA,
}

impl Sentence {
    /// The position of the kind's bit in a mask.
    pub open spec fn index(self) -> u32 {
        match self {
            Sentence::RMC => 0,
            Sentence::VTG => 1,
            Sentence::GGA => 2,
            Sentence::GLL => 3,
            Sentence::PMTK => 4,
            Sentence::GSV => 5,
            Sentence::GSA => 6,
        }
    }

    /// What `try_from` returns.
    pub open spec fn spec_try_from(from: Seq<u8>) -> Result<Sentence, ErrorKind> {
        if from == seq![LETTER_R, LETTER_M, LETTER_C] {
            Ok(Sentence::RMC)
        } else if from == seq![LETTER_G, LETTER_G, LETTER_A] {
            Ok(Sentence::GGA)
        } else if from == seq![LETTER_G, LETTER_L, LETTER_L] {
            Ok(Sentence::GLL)
        } else if from == seq![LETTER_V, LETTER_T, LETTER_G] {
            Ok(Sentence::VTG)
        } else if from == seq![LETTER_G, LETTER_S, LETTER_V] {
            Ok(Sentence::GSV)
        } else if from == seq![LETTER_P, LETTER_M, LETTER_T, LETTER_K] {
            Ok(Sentence::PMTK)
        } else if from == seq![LETTER_G, LETTER_S, LETTER_A] {
            Ok(Sentence::GSA)
        } else {
            Err(ErrorKind::UnsupportedSentence)
        }
    }

    fn bit(self) -> (r: u32)
        ensures
            r == 1u32 << self.index(),
    {
        proof {
            lemma_bit_values();
        }
        match self {
            Sentence::RMC => 1,
            Sentence::VTG => 2,
            Sentence::GGA => 4,
            Sentence::GLL => 8,
            Sentence::PMTK => 16,
            Sentence::GSV => 32,
            Sentence::GSA => 64,
        }
    }

    /// The kind that the sentence code `from` names, or
    /// `UnsupportedSentence` if it names none. The code is three letters, or
    /// the four letters `PMTK`.
    pub fn try_from(from: &[u8]) -> (r: Result<Sentence, ErrorKind>)
        ensures
            r == Sentence::spec_try_from(from@),
    {
        if is_code(from, LETTER_R, LETTER_M, LETTER_C) {
            Ok(Sentence::RMC)
        } else if is_code(from, LETTER_G, LETTER_G, LETTER_A) {
            Ok(Sentence::GGA)
        } else if is_code(from, LETTER_G, LETTER_L, LETTER_L) {
            Ok(Sentence::GLL)
        } else if is_code(from, LETTER_V, LETTER_T, LETTER_G) {
            Ok(Sentence::VTG)
        } else if is_code(from, LETTER_G, LETTER_S, LETTER_V) {
            Ok(Sentence::GSV)
        } else if from.len() == 4 && from[0] == LETTER_P && from[1] == LETTER_M && from[2]
            == LETTER_T && from[3] == LETTER_K {
            proof {
                assert(from@ =~= seq![LETTER_P, LETTER_M, LETTER_T, LETTER_K]);
            }
            Ok(Sentence::PMTK)
        } else if is_code(from, LETTER_G, LETTER_S, LETTER_A) {
            Ok(Sentence::GSA)
        } else {
            proof {
                let pmtk = seq![LETTER_P, LETTER_M, LETTER_T, LETTER_K];
                assert(pmtk.len() == 4 && pmtk[0] == LETTER_P && pmtk[1] == LETTER_M && pmtk[2]
                    == LETTER_T && pmtk[3] == LETTER_K);
            }
            Err(ErrorKind::UnsupportedSentence)
        }
    }
}

/// Mask for Sentence filter in Parser: the set of kinds that it admits.
#[derive(Debug, Clone, Copy, PartialEq, Eq, Structural)]
pub struct SentenceMask {
    mask: u32,
}

impl View for SentenceMask {
    type V = Set<Sentence>;

    closed spec fn view(&self) -> Set<Sentence> {
        Set::new(|s: Sentence| self.mask & (1u32 << s.index()) != 0)
    }
}

impl SentenceMask {
    /// The mask that admits `sentence` and no other.
    pub fn only(sentence: Sentence) -> (r: SentenceMask)
        ensures
            r@ == set![sentence],
    {
        let r = SentenceMask { mask: sentence.bit() };
        proof {
            assert forall|s: Sentence| r@.contains(s) == set![sentence].contains(s) by {
                lemma_single_bit(sentence.index(), s.index());
            }
            assert(r@ =~= set![sentence]);
        }
        r
    }

    /// Whether sentences of the kind `sentence` are to be dropped: whether
    /// the mask does not hold it.
    pub fn is_masked(&self, sentence: Sentence) -> (r: bool)
        ensures
            r == !self@.contains(sentence),
    {
        self.mask & sentence.bit() == 0
    }
}

impl Default for SentenceMask {
    /// The mask that admits every kind.
    fn default() -> (r: SentenceMask)
        ensures
            r@ == Set::<Sentence>::full(),
    {
        let r = SentenceMask { mask: 0xFFFF_FFFF };
        proof {
            assert forall|s: Sentence| r@.contains(s) by {
                lemma_every_bit(s.index());
            }
            assert(r@ =~= Set::<Sentence>::full());
        }
        r
    }
}

impl vstd::std_specs::ops::BitOrSpecImpl for Sentence {
    open spec fn obeys_bitor_spec() -> bool {
        true
    }

    open spec fn bitor_req(self, rhs: Sentence) -> bool {
        true
    }

    closed spec fn bitor_spec(self, rhs: Sentence) -> SentenceMask {
        SentenceMask { mask: (1u32 << self.index()) | (1u32 << rhs.index()) }
    }
}

impl core::ops::BitOr for Sentence {
    type Output = SentenceMask;

    /// The mask that admits the two kinds.
    fn bitor(self, rhs: Sentence) -> (r: SentenceMask)
        ensures
            r@ == set![self, rhs],
    {
        let r = SentenceMask { mask: self.bit() | rhs.bit() };
        proof {
            assert forall|s: Sentence| r@.contains(s) == set![self, rhs].contains(s) by {
                lemma_added_bit(1u32 << self.index(), rhs.index(), s.index());
                lemma_single_bit(self.index(), s.index());
            }
            assert(r@ =~= set![self, rhs]);
        }
        r
    }
}

impl vstd::std_specs::ops::BitOrSpecImpl<Sentence> for SentenceMask {
    open spec fn obeys_bitor_spec() -> bool {
        true
    }

    open spec fn bitor_req(self, rhs: Sentence) -> bool {
        true
    }

    closed spec fn bitor_spec(self, rhs: Sentence) -> SentenceMask {
        SentenceMask { mask: self.mask | (1u32 << rhs.index()) }
    }
}

impl core::ops::BitOr<Sentence> for SentenceMask {
    type Output = SentenceMask;

    /// The mask with `rhs` added to what it admits.
    fn bitor(self, rhs: Sentence) -> (r: SentenceMask)
        ensures
            r@ == self@.insert(rhs),
    {
        let r = SentenceMask { mask: self.mask | rhs.bit() };
        proof {
            assert forall|s: Sentence| r@.contains(s) == self@.insert(rhs).contains(s) by {
                lemma_added_bit(self.mask, rhs.index(), s.index());
            }
            assert(r@ =~= self@.insert(rhs));
        }
        r
    }
}

} // verus!
