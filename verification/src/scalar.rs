//! Double-precision quantities carried as IEEE-754 binary64 bit patterns.
//!
//! Voltages, currents, conductances and times travel through this library as
//! 64-bit words. The library never rounds: it only stores such words, tests
//! their class (zero, finite, not-a-number), drops or flips their sign, and
//! orders them. All of these are exact operations on the bit pattern, so they
//! are stated and proved over integers. Whatever needs rounding (sums,
//! products, quotients, transcendental functions) is computed by the caller
//! and handed in as a word.

use vstd::prelude::*;
use vstd::arithmetic::power2::{
    lemma_pow2_pos, lemma_pow2_strictly_increases, lemma_pow2_unfold, pow2,
};

verus! {

/// Weight of the sign bit.
pub const SIGN_BIT: u64 = 0x8000_0000_0000_0000;

/// Magnitude word of infinity: all exponent bits set, fraction zero.
pub const INFINITY_BITS: u64 = 0x7FF0_0000_0000_0000;

/// Word of `1.0`.
pub const ONE_BITS: u64 = 0x3FF0_0000_0000_0000;

/// Weight of the lowest bit of the exponent field, 2^52: the fraction field
/// lies below it.
pub const FRACTION_SPAN: u64 = 0x0010_0000_0000_0000;

/// A binary64 number, held as its bit pattern.
///
/// The derived `==` compares bit patterns; the numeric comparison, under
/// which the two zeros are equal and a not-a-number equals nothing, is
/// [`Scalar::num_eq`].
#[derive(Clone, Copy, Debug, PartialEq, Eq, Structural)]
pub struct Scalar {
    pub bits: u64,
}

impl Scalar {
    /// The word with the sign bit cleared.
    ///
    /// For two words that are not not-a-number, the one with the larger
    /// magnitude word has the larger absolute value: the exponent field sits
    /// above the fraction field, and both grow with the value.
    pub open spec fn magnitude(self) -> nat {
        if self.bits >= SIGN_BIT {
            (self.bits - SIGN_BIT) as nat
        } else {
            self.bits as nat
        }
    }

    /// The sign bit is set.
    pub open spec fn sign_negative(self) -> bool {
        self.bits >= SIGN_BIT
    }

    /// Not-a-number: exponent all ones, fraction not zero.
    pub open spec fn nan(self) -> bool {
        self.magnitude() > INFINITY_BITS
    }

    /// Zero, subnormal or normal.
    pub open spec fn finite(self) -> bool {
        self.magnitude() < INFINITY_BITS
    }

    /// Positive or negative zero.
    pub open spec fn zero(self) -> bool {
        self.magnitude() == 0
    }

    /// Position on the number line, for words that are not not-a-number:
    /// `a` is numerically below `b` exactly when `a.rank() < b.rank()`, and
    /// numerically equal exactly when the ranks are equal.
    pub open spec fn rank(self) -> int {
        if self.sign_negative() {
            -(self.magnitude() as int)
        } else {
            self.magnitude() as int
        }
    }

    /// Numeric `<`. False when either side is not-a-number.
    pub open spec fn below(self, other: Scalar) -> bool {
        !self.nan() && !other.nan() && self.rank() < other.rank()
    }

    /// Numeric `==`. False when either side is not-a-number.
    pub open spec fn equals(self, other: Scalar) -> bool {
        !self.nan() && !other.nan() && self.rank() == other.rank()
    }

    /// The absolute value: the same word with the sign bit cleared.
    pub open spec fn magnitude_word(self) -> Scalar {
        Scalar { bits: self.magnitude() as u64 }
    }

    /// The negation: the same word with the sign bit flipped.
    pub open spec fn negated(self) -> Scalar {
        if self.bits >= SIGN_BIT {
            Scalar { bits: (self.bits - SIGN_BIT) as u64 }
        } else {
            Scalar { bits: (self.bits + SIGN_BIT) as u64 }
        }
    }

    /// The exponent field of the word.
    pub open spec fn exponent_field(self) -> nat {
        self.magnitude() / (FRACTION_SPAN as nat)
    }

    /// The fraction field of the word.
    pub open spec fn fraction_field(self) -> nat {
        self.magnitude() % (FRACTION_SPAN as nat)
    }

    /// The absolute value that a finite word stands for, counted in units
    /// of 2^-1074, the smallest positive number there is. A word with
    /// exponent field 0 is subnormal and stands for its fraction; any other
    /// word stands for its fraction with the hidden bit set, shifted left by
    /// one less than its exponent field.
    pub open spec fn units(self) -> nat {
        if self.exponent_field() == 0 {
            self.fraction_field()
        } else {
            ((FRACTION_SPAN + self.fraction_field()) * pow2(
                (self.exponent_field() - 1) as nat,
            )) as nat
        }
    }

    /// The value that a finite word stands for, in units of 2^-1074.
    pub open spec fn value(self) -> int {
        if self.sign_negative() {
            -(self.units() as int)
        } else {
            self.units() as int
        }
    }

    /// Wraps a bit pattern.
    pub fn from_bits(bits: u64) -> (s: Scalar)
        ensures
            s.bits == bits,
    {
        Scalar { bits }
    }

    /// The bit pattern.
    pub fn to_bits(&self) -> (bits: u64)
        ensures
            bits == self.bits,
    {
        self.bits
    }

    /// Positive zero.
    pub fn zero_value() -> (s: Scalar)
        ensures
            s.bits == 0,
            s.zero(),
    {
        Scalar { bits: 0 }
    }

    /// `1.0`.
    pub fn one() -> (s: Scalar)
        ensures
            s.bits == ONE_BITS,
    {
        Scalar { bits: ONE_BITS }
    }

    /// The sign bit is set.
    pub fn is_sign_negative(&self) -> (b: bool)
        ensures
            b == self.sign_negative(),
    {
        self.bits >= SIGN_BIT
    }

    /// Absolute value.
    pub fn abs(&self) -> (s: Scalar)
        ensures
            s == self.magnitude_word(),
            !s.sign_negative(),
            s.magnitude() == self.magnitude(),
    {
        if self.bits >= SIGN_BIT {
            Scalar { bits: self.bits - SIGN_BIT }
        } else {
            Scalar { bits: self.bits }
        }
    }

    /// Negation.
    pub fn neg(&self) -> (s: Scalar)
        ensures
            s == self.negated(),
            s.magnitude() == self.magnitude(),
            s.sign_negative() != self.sign_negative(),
    {
        if self.bits >= SIGN_BIT {
            Scalar { bits: self.bits - SIGN_BIT }
        } else {
            Scalar { bits: self.bits + SIGN_BIT }
        }
    }

    /// Not-a-number test.
    pub fn is_nan(&self) -> (b: bool)
        ensures
            b == self.nan(),
    {
        self.abs().bits > INFINITY_BITS
    }

    /// Neither infinite nor not-a-number.
    pub fn is_finite(&self) -> (b: bool)
        ensures
            b == self.finite(),
    {
        self.abs().bits < INFINITY_BITS
    }

    /// Positive or negative zero.
    pub fn is_zero(&self) -> (b: bool)
        ensures
            b == self.zero(),
    {
        self.abs().bits == 0
    }

    /// An unsigned word that grows with the rank: `2^63 + rank`.
    fn order_word(&self) -> (w: u64)
        ensures
            w as int == SIGN_BIT as int + self.rank(),
    {
        if self.bits >= SIGN_BIT {
            SIGN_BIT - (self.bits - SIGN_BIT)
        } else {
            SIGN_BIT + self.bits
        }
    }

    /// Numeric `<`.
    pub fn lt(&self, other: &Scalar) -> (b: bool)
        ensures
            b == self.below(*other),
    {
        !self.is_nan() && !other.is_nan() && self.order_word() < other.order_word()
    }

    /// Numeric `<=`.
    pub fn le(&self, other: &Scalar) -> (b: bool)
        ensures
            b == (self.below(*other) || self.equals(*other)),
    {
        !self.is_nan() && !other.is_nan() && self.order_word() <= other.order_word()
    }

    /// Numeric `>`.
    pub fn gt(&self, other: &Scalar) -> (b: bool)
        ensures
            b == other.below(*self),
    {
        other.lt(self)
    }

    /// Numeric `>=`.
    pub fn ge(&self, other: &Scalar) -> (b: bool)
        ensures
            b == (other.below(*self) || self.equals(*other)),
    {
        other.le(self)
    }

    /// Numeric `==`.
    pub fn num_eq(&self, other: &Scalar) -> (b: bool)
        ensures
            b == self.equals(*other),
    {
        !self.is_nan() && !other.is_nan() && self.order_word() == other.order_word()
    }
}

/// Two words that are numbers compare in exactly one of the three ways.
pub proof fn lemma_trichotomy(a: Scalar, b: Scalar)
    requires
        !a.nan(),
        !b.nan(),
    ensures
        a.below(b) || a.equals(b) || b.below(a),
        !(a.below(b) && a.equals(b)),
        !(a.below(b) && b.below(a)),
        !(a.equals(b) && b.below(a)),
{
}

/// Numeric `<` is transitive, also through numeric equality.
pub proof fn lemma_below_transitive(a: Scalar, b: Scalar, c: Scalar)
    requires
        a.below(b) || a.equals(b),
        b.below(c),
    ensures
        a.below(c),
{
}

/// Of two finite words, the one with the smaller magnitude word stands for
/// the smaller absolute value.
proof fn lemma_units_increase(a: Scalar, b: Scalar)
    requires
        a.magnitude() < b.magnitude(),
    ensures
        a.units() < b.units(),
{
    let span = FRACTION_SPAN as int;
    let (ea, fa) = (a.exponent_field() as int, a.fraction_field() as int);
    let (eb, fb) = (b.exponent_field() as int, b.fraction_field() as int);
    let (ma, mb) = (a.magnitude() as int, b.magnitude() as int);
    assert(ma == ea * span + fa && 0 <= fa < span) by (nonlinear_arith)
        requires
            ea == ma / span,
            fa == ma % span,
            span > 0,
            ma >= 0,
    ;
    assert(mb == eb * span + fb && 0 <= fb < span) by (nonlinear_arith)
        requires
            eb == mb / span,
            fb == mb % span,
            span > 0,
            mb >= 0,
    ;
    assert(ea <= eb) by (nonlinear_arith)
        requires
            ma < mb,
            ma == ea * span + fa,
            mb == eb * span + fb,
            0 <= fa < span,
            0 <= fb < span,
    ;
    if ea == eb {
        assert(fa < fb);
        if ea > 0 {
            let p = pow2((ea - 1) as nat) as int;
            lemma_pow2_pos((ea - 1) as nat);
            assert((span + fa) * p < (span + fb) * p) by (nonlinear_arith)
                requires
                    fa < fb,
                    p > 0,
            ;
        }
    } else {
        let pb = pow2((eb - 1) as nat) as int;
        lemma_pow2_pos((eb - 1) as nat);
        assert(span <= (span + fb) * pb) by (nonlinear_arith)
            requires
                pb >= 1,
                fb >= 0,
                span >= 0,
        ;
        if ea > 0 {
            let pa = pow2((ea - 1) as nat) as int;
            lemma_pow2_pos((ea - 1) as nat);
            lemma_pow2_unfold(ea as nat);
            if ea < eb - 1 {
                lemma_pow2_strictly_increases(ea as nat, (eb - 1) as nat);
            }
            assert(2 * pa <= pb);
            assert((span + fa) * pa < (span + fb) * pb) by (nonlinear_arith)
                requires
                    0 <= fa < span,
                    fb >= 0,
                    pa >= 1,
                    2 * pa <= pb,
            ;
        }
    }
}

/// The words are ordered as the numbers that they stand for: of two finite
/// words, one is numerically below the other exactly when its value is
/// smaller, and they are numerically equal exactly when their values are
/// equal.
pub proof fn lemma_order_is_that_of_values(a: Scalar, b: Scalar)
    requires
        a.finite(),
        b.finite(),
    ensures
        a.below(b) <==> a.value() < b.value(),
        a.equals(b) <==> a.value() == b.value(),
{
    let zero = Scalar { bits: 0 };
    assert(zero.units() == 0);
    if a.magnitude() > 0 {
        lemma_units_increase(zero, a);
    }
    if b.magnitude() > 0 {
        lemma_units_increase(zero, b);
    }
    if a.magnitude() < b.magnitude() {
        lemma_units_increase(a, b);
    } else if b.magnitude() < a.magnitude() {
        lemma_units_increase(b, a);
    } else {
        assert(a.units() == b.units());
    }
}

} // verus!
