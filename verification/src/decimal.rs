//! Exact decimal numbers, as a receiver prints them.
//!
//! A `Decimal` keeps the digits of a field and the place of its decimal
//! point. Arithmetic on it is integer arithmetic, so every result in this
//! crate is the exact number that the text denotes.

use crate::common::{
    all_digits, digits_value, find_from, first_index_of, is_digit, lemma_digits_value_nonnegative,
    parse_digits, MAX_DIGITS_LIMIT,
};
use vstd::prelude::*;
use vstd::slice::slice_subrange;

verus! {

/// ASCII `+`.
pub const PLUS: u8 = 0x2B;

/// ASCII `-`.
pub const MINUS: u8 = 0x2D;

/// ASCII `.`.
pub const POINT: u8 = 0x2E;

/// The most fractional digits that a decoded field may have.
pub const MAX_SCALE: u8 = 18;

/// The magnitude that the digits of a decoded field stay below: 10^18.
pub const COMPACT_LIMIT: i128 = 1_000_000_000_000_000_000;

/// Ten to the power `n`.
pub open spec fn pow10(n: nat) -> int
    decreases n,
{
    if n == 0 {
        1
    } else {
        10 * pow10((n - 1) as nat)
    }
}

/// Powers of ten are positive.
pub proof fn lemma_pow10_positive(n: nat)
    ensures
        pow10(n) >= 1,
    decreases n,
{
    if n > 0 {
        lemma_pow10_positive((n - 1) as nat);
    }
}

/// Powers of ten multiply by adding exponents.
pub proof fn lemma_pow10_add(a: nat, b: nat)
    ensures
        pow10(a + b) == pow10(a) * pow10(b),
    decreases b,
{
    if b == 0 {
        assert(pow10(a) * 1 == pow10(a));
    } else {
        lemma_pow10_add(a, (b - 1) as nat);
        let x = pow10(a);
        let y = pow10((b - 1) as nat);
        assert(10 * (x * y) == x * (10 * y)) by (nonlinear_arith);
    }
}

/// Powers of ten grow with the exponent.
pub proof fn lemma_pow10_monotonic(a: nat, b: nat)
    requires
        a <= b,
    ensures
        pow10(a) <= pow10(b),
    decreases b - a,
{
    if a < b {
        lemma_pow10_monotonic(a, (b - 1) as nat);
        lemma_pow10_positive((b - 1) as nat);
    }
}

/// The powers of ten that the bounds of this crate are written with.
pub proof fn lemma_pow10_values()
    ensures
        pow10(0) == 1,
        pow10(1) == 10,
        pow10(2) == 100,
        pow10(3) == 1_000,
        pow10(4) == 10_000,
        pow10(5) == 100_000,
        pow10(6) == 1_000_000,
        pow10(18) == 1_000_000_000_000_000_000,
        pow10(36) == 1_000_000_000_000_000_000_000_000_000_000_000_000,
{
    reveal_with_fuel(pow10, 10);
    assert(pow10(9) == 1_000_000_000);
    lemma_pow10_add(9, 9);
    lemma_pow10_add(18, 18);
    assert(1_000_000_000int * 1_000_000_000int == 1_000_000_000_000_000_000int);
    assert(1_000_000_000_000_000_000int * 1_000_000_000_000_000_000int
        == 1_000_000_000_000_000_000_000_000_000_000_000_000int);
}

/// Ten to the power `n`, for the exponents whose power fits.
pub fn ten_to(n: u8) -> (r: i128)
    requires
        n <= 36,
    ensures
        r == pow10(n as nat),
        r >= 1,
{
    let mut r: i128 = 1;
    let mut i: u8 = 0;
    while i < n
        invariant
            0 <= i <= n <= 36,
            r == pow10(i as nat),
            r >= 1,
        decreases n - i,
    {
        proof {
            lemma_pow10_monotonic((i + 1) as nat, 36);
            lemma_pow10_values();
            assert(pow10((i + 1) as nat) == 10 * pow10(i as nat));
        }
        r = r * 10;
        i = i + 1;
    }
    proof {
        lemma_pow10_positive(n as nat);
    }
    r
}

/// The value of two digit strings written one after the other.
pub proof fn lemma_digits_value_concat(a: Seq<u8>, b: Seq<u8>)
    ensures
        digits_value(a + b) == digits_value(a) * pow10(b.len()) + digits_value(b),
    decreases b.len(),
{
    if b.len() == 0 {
        assert(a + b =~= a);
        assert(digits_value(a) * 1 == digits_value(a));
    } else {
        let b0 = b.drop_last();
        lemma_digits_value_concat(a, b0);
        assert((a + b).drop_last() =~= a + b0);
        assert((a + b).last() == b.last());
        let x = digits_value(a);
        let p = pow10(b0.len());
        assert(10 * (x * p) == x * (10 * p)) by (nonlinear_arith);
    }
}

/// A string of `n` digits denotes a number below ten to the `n`.
pub proof fn lemma_digits_value_bound(s: Seq<u8>)
    requires
        all_digits(s),
    ensures
        0 <= digits_value(s) < pow10(s.len()),
    decreases s.len(),
{
    if s.len() > 0 {
        lemma_digits_value_bound(s.drop_last());
        assert(is_digit(s.last()));
    }
}

/// The digits of an unsigned decimal text before its point.
pub open spec fn int_digits(s: Seq<u8>) -> Seq<u8> {
    s.take(first_index_of(s, POINT))
}

/// The digits of an unsigned decimal text after its point; none if it has
/// no point.
pub open spec fn frac_digits(s: Seq<u8>) -> Seq<u8> {
    let p = first_index_of(s, POINT);
    if p < s.len() {
        s.skip(p + 1)
    } else {
        Seq::empty()
    }
}

/// Whether `s` is digits with at most one point among them, and at least one
/// digit: `12`, `12.5`, `12.` and `.5` are, `.` and the empty text are not.
pub open spec fn unsigned_syntax(s: Seq<u8>) -> bool {
    &&& all_digits(int_digits(s))
    &&& all_digits(frac_digits(s))
    &&& int_digits(s).len() + frac_digits(s).len() > 0
}

/// The number that the digits of `s` denote once the point is taken out.
pub open spec fn unsigned_mantissa(s: Seq<u8>) -> int {
    digits_value(int_digits(s) + frac_digits(s))
}

/// Whether `s` begins with a sign.
pub open spec fn has_sign(s: Seq<u8>) -> bool {
    s.len() > 0 && (s[0] == PLUS || s[0] == MINUS)
}

/// A decimal number: `mantissa` divided by ten to the power `scale`.
///
/// Two decimals that denote one number may differ in their scale, as `1.5`
/// and `1.50` do; `==` tells them apart, `same_value` does not.
#[derive(Debug, Clone, Copy, PartialEq, Eq, Structural)]
pub struct Decimal {
    /// All digits of the number, with its sign.
    pub mantissa: i128,
    /// How many of those digits stand after the point.
    pub scale: u8,
}

impl Decimal {
    /// Whether the number has the size of a decoded field: at most 18
    /// fractional digits, and a mantissa below 10^18 in magnitude.
    pub open spec fn is_compact(self) -> bool {
        self.scale <= MAX_SCALE && -COMPACT_LIMIT < self.mantissa < COMPACT_LIMIT
    }

    /// The number in units of ten to the minus `scale`, for a `scale` that
    /// is at least the number's own.
    pub open spec fn units(self, scale: nat) -> int {
        self.mantissa * pow10((scale - self.scale) as nat)
    }

    /// Whether the two decimals denote the same number.
    pub open spec fn same_value(self, other: Decimal) -> bool {
        self.mantissa * pow10(other.scale as nat) == other.mantissa * pow10(self.scale as nat)
    }

    /// What `parse_unsigned` returns for the text `s`.
    pub open spec fn spec_parse_unsigned(s: Seq<u8>) -> Option<Decimal> {
        if unsigned_syntax(s) && frac_digits(s).len() <= MAX_SCALE && unsigned_mantissa(s)
            < COMPACT_LIMIT {
            Some(
                Decimal {
                    mantissa: unsigned_mantissa(s) as i128,
                    scale: frac_digits(s).len() as u8,
                },
            )
        } else {
            None
        }
    }

    /// What `parse` returns for the text `s`.
    pub open spec fn spec_parse(s: Seq<u8>) -> Option<Decimal> {
        if has_sign(s) {
            match Decimal::spec_parse_unsigned(s.skip(1)) {
                Some(d) => if s[0] == MINUS {
                    Some(Decimal { mantissa: (-d.mantissa) as i128, scale: d.scale })
                } else {
                    Some(d)
                },
                None => None,
            }
        } else {
            Decimal::spec_parse_unsigned(s)
        }
    }

    /// Whether the number is less than the integer `v`.
    pub open spec fn spec_lt_int(self, v: int) -> bool {
        self.mantissa < v * pow10(self.scale as nat)
    }

    /// Whether the number is less than the integer `v`.
    pub fn lt_int(&self, v: i64) -> (r: bool)
        requires
            self.scale <= MAX_SCALE,
        ensures
            r == self.spec_lt_int(v as int),
    {
        let unit: i128 = ten_to(self.scale);
        proof {
            lemma_pow10_values();
            lemma_pow10_monotonic(self.scale as nat, 18);
        }
        assert(-0x8000_0000_0000_0000 * COMPACT_LIMIT <= v * unit <= 0x8000_0000_0000_0000
            * COMPACT_LIMIT) by (nonlinear_arith)
            requires
                -0x8000_0000_0000_0000 <= v <= 0x8000_0000_0000_0000,
                1 <= unit <= COMPACT_LIMIT,
        ;
        self.mantissa < (v as i128) * unit
    }

    /// The whole part of a number that is not negative.
    pub open spec fn spec_whole(self) -> int {
        (self.mantissa as int) / pow10(self.scale as nat)
    }

    /// The digits after the point of a number that is not negative, as a
    /// count of units of ten to the minus `scale`.
    pub open spec fn spec_fraction(self) -> int {
        (self.mantissa as int) % pow10(self.scale as nat)
    }

    /// Parts a number that is not negative into its whole part and the
    /// digits after its point.
    pub fn split(&self) -> (parts: (i128, i128))
        requires
            self.scale <= MAX_SCALE,
            self.mantissa >= 0,
        ensures
            parts.0 == self.spec_whole(),
            parts.1 == self.spec_fraction(),
            0 <= parts.0 <= self.mantissa,
            0 <= parts.1 < pow10(self.scale as nat),
            self.mantissa == parts.0 * pow10(self.scale as nat) + parts.1,
    {
        let unit: i128 = ten_to(self.scale);
        proof {
            vstd::arithmetic::div_mod::lemma_fundamental_div_mod(self.mantissa as int, unit as int);
            vstd::arithmetic::div_mod::lemma_mod_pos_bound(self.mantissa as int, unit as int);
            vstd::arithmetic::div_mod::lemma_div_pos_is_pos(self.mantissa as int, unit as int);
            let q = self.mantissa as int / unit as int;
            assert(unit * q >= q) by (nonlinear_arith)
                requires
                    unit >= 1,
                    q >= 0,
            ;
            assert(unit * q == q * unit) by (nonlinear_arith);
        }
        (self.mantissa / unit, self.mantissa % unit)
    }

    /// The number times `factor`, written with `digits` more fractional
    /// digits: the product with a decimal constant.
    pub open spec fn scaled(self, factor: int, digits: nat) -> Decimal {
        Decimal { mantissa: (self.mantissa * factor) as i128, scale: (self.scale + digits) as u8 }
    }

    /// The sum of two numbers, at the larger of their scales.
    pub open spec fn spec_plus(self, other: Decimal) -> Decimal {
        let scale = if self.scale >= other.scale {
            self.scale
        } else {
            other.scale
        };
        Decimal {
            mantissa: (self.units(scale as nat) + other.units(scale as nat)) as i128,
            scale,
        }
    }

    /// The difference of two numbers, at the larger of their scales.
    pub open spec fn spec_minus(self, other: Decimal) -> Decimal {
        let scale = if self.scale >= other.scale {
            self.scale
        } else {
            other.scale
        };
        Decimal {
            mantissa: (self.units(scale as nat) - other.units(scale as nat)) as i128,
            scale,
        }
    }

    /// Milliseconds in a number of seconds, cut off after the third digit;
    /// 0 for a negative number, and the largest count for one too large.
    pub open spec fn spec_millis(self) -> u64 {
        if self.mantissa <= 0 {
            0
        } else {
            let n = self.mantissa * 1000 / pow10(self.scale as nat);
            if n > u64::MAX {
                u64::MAX
            } else {
                n as u64
            }
        }
    }

    /// The mantissa of a compact number once it is written with `scale`
    /// fractional digits.
    pub fn units_at(&self, scale: u8) -> (r: i128)
        requires
            self.is_compact(),
            self.scale <= scale <= MAX_SCALE,
        ensures
            r == self.units(scale as nat),
            -COMPACT_LIMIT * COMPACT_LIMIT < r < COMPACT_LIMIT * COMPACT_LIMIT,
    {
        let shift: i128 = ten_to(scale - self.scale);
        proof {
            lemma_pow10_values();
            lemma_pow10_monotonic((scale - self.scale) as nat, 18);
        }
        assert(-COMPACT_LIMIT * COMPACT_LIMIT < self.mantissa * shift < COMPACT_LIMIT
            * COMPACT_LIMIT) by (nonlinear_arith)
            requires
                -COMPACT_LIMIT < self.mantissa < COMPACT_LIMIT,
                1 <= shift <= COMPACT_LIMIT,
        ;
        self.mantissa * shift
    }

    /// The sum of two compact numbers, exactly.
    pub fn plus(&self, other: &Decimal) -> (r: Decimal)
        requires
            self.is_compact(),
            other.is_compact(),
        ensures
            r == self.spec_plus(*other),
    {
        let scale: u8 = if self.scale >= other.scale {
            self.scale
        } else {
            other.scale
        };
        let a: i128 = self.units_at(scale);
        let b: i128 = other.units_at(scale);
        Decimal { mantissa: a + b, scale }
    }

    /// The difference of two compact numbers, exactly.
    pub fn minus(&self, other: &Decimal) -> (r: Decimal)
        requires
            self.is_compact(),
            other.is_compact(),
        ensures
            r == self.spec_minus(*other),
    {
        let scale: u8 = if self.scale >= other.scale {
            self.scale
        } else {
            other.scale
        };
        let a: i128 = self.units_at(scale);
        let b: i128 = other.units_at(scale);
        Decimal { mantissa: a - b, scale }
    }

    /// The product with the decimal constant `factor / 10^digits`, exactly.
    pub fn scale_by(&self, factor: i128, digits: u8) -> (r: Decimal)
        requires
            0 <= factor <= 1_000_000,
            digits <= 6,
            self.scale <= 24,
            -1_000_000_000_000_000_000_000_000 < self.mantissa < 1_000_000_000_000_000_000_000_000,
        ensures
            r == self.scaled(factor as int, digits as nat),
            -1_000_000_000_000_000_000_000_000_000_000 < r.mantissa
                < 1_000_000_000_000_000_000_000_000_000_000,
            factor > 0 ==> (r.mantissa >= 0 <==> self.mantissa >= 0),
    {
        assert(-1_000_000_000_000_000_000_000_000_000_000 < self.mantissa * factor
            < 1_000_000_000_000_000_000_000_000_000_000 && (factor > 0 ==> (self.mantissa * factor
            >= 0 <==> self.mantissa >= 0))) by (nonlinear_arith)
            requires
                0 <= factor <= 1_000_000,
                -1_000_000_000_000_000_000_000_000 < self.mantissa
                    < 1_000_000_000_000_000_000_000_000,
        ;
        Decimal { mantissa: self.mantissa * factor, scale: self.scale + digits }
    }

    /// Milliseconds in a compact number of seconds, as `spec_millis` counts
    /// them.
    pub fn millis(&self) -> (r: u64)
        requires
            self.is_compact(),
        ensures
            r == self.spec_millis(),
    {
        if self.mantissa <= 0 {
            return 0;
        }
        let unit: i128 = ten_to(self.scale);
        let n: i128 = self.mantissa * 1000 / unit;
        proof {
            vstd::arithmetic::div_mod::lemma_div_pos_is_pos(self.mantissa * 1000, unit as int);
        }
        if n > 0xFFFF_FFFF_FFFF_FFFF {
            0xFFFF_FFFF_FFFF_FFFF
        } else {
            n as u64
        }
    }

    /// Reads an unsigned decimal text: digits, with at most one point among
    /// them.
    ///
    /// Returns the exact number if the text has that form, at most 18 digits
    /// after the point, and digits that denote less than 10^18 with the point
    /// taken out; nothing otherwise.
    pub fn parse_unsigned(s: &[u8]) -> (r: Option<Decimal>)
        ensures
            r == Decimal::spec_parse_unsigned(s@),
            r matches Some(d) ==> d.is_compact() && d.mantissa >= 0,
    {
        let n: usize = s.len();
        let p: usize = find_from(s, 0, POINT);
        assert(s@.skip(0) =~= s@);
        let whole = slice_subrange(s, 0, p);
        let frac = if p < n {
            slice_subrange(s, p + 1, n)
        } else {
            slice_subrange(s, n, n)
        };
        assert(whole@ =~= int_digits(s@));
        assert(frac@ =~= frac_digits(s@));
        if whole.len() + frac.len() == 0 {
            return None;
        }
        if frac.len() > MAX_SCALE as usize {
            return None;
        }
        let scale: u8 = frac.len() as u8;
        proof {
            lemma_pow10_values();
            lemma_digits_value_concat(whole@, frac@);
            lemma_pow10_monotonic(frac@.len(), 18);
            lemma_pow10_positive(frac@.len());
            if all_digits(whole@) {
                lemma_digits_value_nonnegative(whole@);
            }
            if all_digits(frac@) {
                lemma_digits_value_bound(frac@);
            }
        }
        let ghost shift = pow10(frac@.len());
        let hi: u64 = match parse_digits(whole, MAX_DIGITS_LIMIT) {
            Some(v) => v,
            None => {
                proof {
                    if all_digits(whole@) && all_digits(frac@) {
                        let x = digits_value(whole@);
                        assert(x * shift >= x) by (nonlinear_arith)
                            requires
                                x >= 0,
                                shift >= 1,
                        ;
                    }
                }
                return None;
            },
        };
        let lo: u64 = match parse_digits(frac, MAX_DIGITS_LIMIT) {
            Some(v) => v,
            None => {
                return None;
            },
        };
        let factor: i128 = ten_to(scale);
        assert(hi * factor <= MAX_DIGITS_LIMIT * COMPACT_LIMIT) by (nonlinear_arith)
            requires
                0 <= hi <= MAX_DIGITS_LIMIT,
                0 <= factor <= COMPACT_LIMIT,
        ;
        let mantissa: i128 = (hi as i128) * factor + (lo as i128);
        if mantissa >= COMPACT_LIMIT {
            return None;
        }
        Some(Decimal { mantissa, scale })
    }

    /// Reads a decimal text: an optional `+` or `-`, then an unsigned decimal
    /// as `parse_unsigned` reads it.
    pub fn parse(s: &[u8]) -> (r: Option<Decimal>)
        ensures
            r == Decimal::spec_parse(s@),
            r matches Some(d) ==> d.is_compact(),
    {
        let n: usize = s.len();
        if n > 0 && (s[0] == PLUS || s[0] == MINUS) {
            let body = slice_subrange(s, 1, n);
            assert(body@ =~= s@.skip(1));
            match Decimal::parse_unsigned(body) {
                Some(d) => {
                    if s[0] == MINUS {
                        Some(Decimal { mantissa: -d.mantissa, scale: d.scale })
                    } else {
                        Some(d)
                    }
                },
                None => None,
            }
        } else {
            Decimal::parse_unsigned(s)
        }
    }
}

} // verus!
