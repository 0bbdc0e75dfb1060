//! Single-precision numbers as bit patterns, with their IEEE-754 order.

use vstd::prelude::*;
use vstd::arithmetic::power2::lemma_pow2_pos;
use vstd::arithmetic::power2::lemma_pow2_strictly_increases;
use vstd::arithmetic::power2::lemma_pow2_unfold;
use vstd::arithmetic::power2::pow2;

verus! {

/// The sign bit of a single-precision bit pattern.
pub const SIGN_BIT: u32 = 0x8000_0000;

/// The bit pattern of positive infinity. A pattern whose magnitude is larger
/// is not a number.
pub const INFINITY_BITS: u32 = 0x7f80_0000;

/// The number of patterns that share one exponent: two to the power 23.
pub const FRACTION_SPAN: u32 = 0x0080_0000;

/// The bit pattern of `1.0`.
pub const ONE_BITS: u32 = 0x3f80_0000;

/// The bit pattern of the largest finite number.
pub const MAX_BITS: u32 = 0x7f7f_ffff;

/// A single-precision number, held as its IEEE-754 bit pattern.
///
/// A pattern that is a number has a `value`, counted in units of the smallest
/// positive number, and a `rank`: an integer that grows exactly as the value
/// grows. The order and the equality of scalars are those of their ranks. Both
/// zeros have rank 0.
#[derive(Clone, Copy, Debug)]
pub struct Scalar {
    pub bits: u32,
}

impl Scalar {
    /// The pattern without its sign bit.
    pub open spec fn magnitude(self) -> int {
        if self.bits >= SIGN_BIT {
            self.bits - SIGN_BIT
        } else {
            self.bits as int
        }
    }

    /// The sign bit is set. This holds of `-0.0` too.
    pub open spec fn negative(self) -> bool {
        self.bits >= SIGN_BIT
    }

    /// The pattern is not a number.
    pub open spec fn nan(self) -> bool {
        self.magnitude() > INFINITY_BITS
    }

    /// The place of the number in the order of all numbers.
    pub open spec fn rank(self) -> int {
        if self.negative() {
            -self.magnitude()
        } else {
            self.magnitude()
        }
    }

    /// The exponent field of the pattern.
    pub open spec fn exponent(self) -> int {
        self.magnitude() / (FRACTION_SPAN as int)
    }

    /// The fraction field of the pattern.
    pub open spec fn fraction(self) -> int {
        self.magnitude() % (FRACTION_SPAN as int)
    }

    /// The absolute value of the number, in units of the smallest positive
    /// number, two to the power -149. With an exponent field of zero the
    /// fraction counts units; otherwise the fraction, with a leading one before
    /// it, is doubled once for every step of the exponent above one. Infinity
    /// comes out as two to the power 128, which no finite number reaches.
    pub open spec fn units(self) -> int {
        if self.exponent() == 0 {
            self.fraction()
        } else {
            (FRACTION_SPAN + self.fraction()) * pow2((self.exponent() - 1) as nat)
        }
    }

    /// The number, in units of the smallest positive number.
    pub open spec fn value(self) -> int {
        if self.negative() {
            -self.units()
        } else {
            self.units()
        }
    }

    /// `self < other` as IEEE-754 defines it: false when either is not a number.
    pub open spec fn below(self, other: Scalar) -> bool {
        !self.nan() && !other.nan() && self.rank() < other.rank()
    }

    /// `self > other` as IEEE-754 defines it: false when either is not a number.
    pub open spec fn above(self, other: Scalar) -> bool {
        other.below(self)
    }

    /// `self == other` as IEEE-754 defines it: the zeros are equal, and what is
    /// not a number equals nothing.
    pub open spec fn same(self, other: Scalar) -> bool {
        !self.nan() && !other.nan() && self.rank() == other.rank()
    }

    /// The number with the opposite sign.
    pub open spec fn negated(self) -> Scalar {
        if self.bits >= SIGN_BIT {
            Scalar { bits: (self.bits - SIGN_BIT) as u32 }
        } else {
            Scalar { bits: (self.bits + SIGN_BIT) as u32 }
        }
    }

    /// The scalar with the given bit pattern.
    pub fn from_bits(bits: u32) -> (s: Scalar)
        ensures
            s.bits == bits,
    {
        Scalar { bits }
    }

    /// The bit pattern of the scalar.
    pub fn to_bits(&self) -> (bits: u32)
        ensures
            bits == self.bits,
    {
        self.bits
    }

    /// The number `0.0`.
    pub open spec fn spec_zero() -> Scalar {
        Scalar { bits: 0 }
    }

    /// The number `1.0`.
    pub open spec fn spec_one() -> Scalar {
        Scalar { bits: ONE_BITS }
    }

    /// The largest finite number.
    pub open spec fn spec_max() -> Scalar {
        Scalar { bits: MAX_BITS }
    }

    /// The number `0.0`.
    #[verifier::when_used_as_spec(spec_zero)]
    pub fn zero() -> (s: Scalar)
        ensures
            s == Scalar::spec_zero(),
    {
        Scalar { bits: 0 }
    }

    /// The number `1.0`.
    #[verifier::when_used_as_spec(spec_one)]
    pub fn one() -> (s: Scalar)
        ensures
            s == Scalar::spec_one(),
    {
        Scalar { bits: ONE_BITS }
    }

    /// The largest finite number.
    #[verifier::when_used_as_spec(spec_max)]
    pub fn max() -> (s: Scalar)
        ensures
            s == Scalar::spec_max(),
    {
        Scalar { bits: MAX_BITS }
    }

    /// The pattern without its sign bit.
    fn abs_bits(&self) -> (m: u32)
        ensures
            m == self.magnitude(),
    {
        if self.bits >= SIGN_BIT {
            self.bits - SIGN_BIT
        } else {
            self.bits
        }
    }

    /// Whether the pattern is not a number.
    pub fn is_nan(&self) -> (r: bool)
        ensures
            r == self.nan(),
    {
        self.abs_bits() > INFINITY_BITS
    }

    /// `self < other`.
    pub fn lt(&self, other: &Scalar) -> (r: bool)
        ensures
            r == self.below(*other),
    {
        let a: u32 = self.abs_bits();
        let b: u32 = other.abs_bits();
        if a > INFINITY_BITS || b > INFINITY_BITS {
            false
        } else if self.bits >= SIGN_BIT {
            if other.bits >= SIGN_BIT {
                a > b
            } else {
                a != 0 || b != 0
            }
        } else {
            other.bits < SIGN_BIT && a < b
        }
    }

    /// `self > other`.
    pub fn gt(&self, other: &Scalar) -> (r: bool)
        ensures
            r == self.above(*other),
    {
        other.lt(self)
    }

    /// The number with the opposite sign. What is not a number stays so.
    pub fn neg(&self) -> (r: Scalar)
        ensures
            r == self.negated(),
            r.nan() == self.nan(),
            r.rank() == -self.rank(),
    {
        if self.bits >= SIGN_BIT {
            Scalar { bits: self.bits - SIGN_BIT }
        } else {
            Scalar { bits: self.bits + SIGN_BIT }
        }
    }
}

impl PartialEq for Scalar {
    /// `self == other` as numbers.
    fn eq(&self, other: &Scalar) -> (r: bool) {
        let a: u32 = self.abs_bits();
        let b: u32 = other.abs_bits();
        if a > INFINITY_BITS || b > INFINITY_BITS {
            false
        } else if a == 0 {
            b == 0
        } else {
            self.bits == other.bits
        }
    }
}

impl vstd::std_specs::cmp::PartialEqSpecImpl for Scalar {
    open spec fn obeys_eq_spec() -> bool {
        true
    }

    open spec fn eq_spec(&self, other: &Scalar) -> bool {
        self.same(*other)
    }
}

/// Of two patterns without sign, the larger pattern has the larger value.
proof fn lemma_units_increase(a: Scalar, b: Scalar)
    requires
        a.magnitude() < b.magnitude(),
    ensures
        0 <= a.units() < b.units(),
{
    let span = FRACTION_SPAN as int;
    let (e1, f1) = (a.exponent(), a.fraction());
    let (e2, f2) = (b.exponent(), b.fraction());
    assert(a.magnitude() == e1 * span + f1 && 0 <= f1 < span && 0 <= e1) by {
        assert(a.magnitude() == span * (a.magnitude() / span) + a.magnitude() % span);
    }
    assert(b.magnitude() == e2 * span + f2 && 0 <= f2 < span && 0 <= e2) by {
        assert(b.magnitude() == span * (b.magnitude() / span) + b.magnitude() % span);
    }
    assert(e1 <= e2) by (nonlinear_arith)
        requires
            e1 * span + f1 < e2 * span + f2,
            0 <= f1 < span,
            0 <= f2 < span,
    ;
    if e1 > 0 {
        lemma_pow2_pos((e1 - 1) as nat);
    }
    if e2 > 0 {
        lemma_pow2_pos((e2 - 1) as nat);
    }
    if e1 == e2 {
        if e1 > 0 {
            let p = pow2((e1 - 1) as nat) as int;
            assert((span + f1) * p < (span + f2) * p) by (nonlinear_arith)
                requires
                    f1 < f2,
                    p > 0,
            ;
        }
    } else {
        let p2 = pow2((e2 - 1) as nat) as int;
        assert(span <= (span + f2) * p2) by (nonlinear_arith)
            requires
                0 <= f2,
                p2 >= 1,
                span > 0,
        ;
        if e1 > 0 {
            let p1 = pow2((e1 - 1) as nat) as int;
            lemma_pow2_unfold(e1 as nat);
            if e1 < e2 - 1 {
                lemma_pow2_strictly_increases(e1 as nat, (e2 - 1) as nat);
            }
            assert(2 * p1 <= p2);
            assert((span + f1) * p1 < (span + f2) * p2) by (nonlinear_arith)
                requires
                    0 <= f1 < span,
                    0 <= f2,
                    p1 > 0,
                    2 * p1 <= p2,
            ;
        }
    }
    if e1 > 0 {
        let p1 = pow2((e1 - 1) as nat) as int;
        assert(0 <= (span + f1) * p1) by (nonlinear_arith)
            requires
                0 <= f1,
                span > 0,
                p1 > 0,
        ;
    }
}

/// The order and the equality of scalars are those of the numbers they hold:
/// one is below another exactly when its value is the smaller, and two are
/// equal exactly when their values are.
pub proof fn lemma_order_is_that_of_values(a: Scalar, b: Scalar)
    requires
        !a.nan(),
        !b.nan(),
    ensures
        a.below(b) <==> a.value() < b.value(),
        a.same(b) <==> a.value() == b.value(),
        a.above(b) <==> a.value() > b.value(),
{
    let zero = Scalar { bits: 0 };
    assert(zero.units() == 0);
    if a.magnitude() < b.magnitude() {
        lemma_units_increase(a, b);
    }
    if b.magnitude() < a.magnitude() {
        lemma_units_increase(b, a);
    }
    if 0 < a.magnitude() {
        lemma_units_increase(zero, a);
    }
    if 0 < b.magnitude() {
        lemma_units_increase(zero, b);
    }
    if a.magnitude() == b.magnitude() {
        assert(a.units() == b.units());
    }
    if a.magnitude() == 0 {
        assert(a.units() == 0);
    }
    if b.magnitude() == 0 {
        assert(b.units() == 0);
    }
}

/// The order of numbers is strict: nothing is below itself, and of two numbers
/// at most one is below the other.
pub proof fn lemma_below_strict(a: Scalar, b: Scalar)
    ensures
        !a.below(a),
        a.below(b) ==> !b.below(a),
        a.below(b) ==> !a.same(b),
{
}

/// The order of numbers is transitive.
pub proof fn lemma_below_transitive(a: Scalar, b: Scalar, c: Scalar)
    requires
        a.below(b),
        b.below(c),
    ensures
        a.below(c),
{
}

/// Two numbers are ordered one way or the other, or are equal.
pub proof fn lemma_below_total(a: Scalar, b: Scalar)
    requires
        !a.nan(),
        !b.nan(),
    ensures
        a.below(b) || b.below(a) || a.same(b),
{
}

/// What is not a number is neither below, above nor equal to anything.
pub proof fn lemma_nan_unordered(a: Scalar, b: Scalar)
    requires
        a.nan(),
    ensures
        !a.below(b),
        !b.below(a),
        !a.same(b),
        !a.above(b),
{
}

/// Numbers that are equal and not zero have the same bit pattern.
pub proof fn lemma_same_bits(a: Scalar, b: Scalar)
    requires
        a.same(b),
        a.rank() != 0,
    ensures
        a == b,
{
}

/// Changing both signs turns the order round.
pub proof fn lemma_neg_reverses(a: Scalar, b: Scalar)
    ensures
        a.below(b) <==> b.negated().below(a.negated()),
{
}

} // verus!
