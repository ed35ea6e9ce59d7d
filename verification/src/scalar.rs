//! Doubles held as bit patterns.
//!
//! A [`Scalar`] is the 64-bit pattern of an IEEE-754 binary64 number: one sign
//! bit, eleven exponent bits, fifty-two fraction bits. The pattern without its
//! sign bit is the *magnitude*. Among the numbers that are not NaN, a larger
//! magnitude encodes a larger absolute value, so the signed magnitude, the
//! *rank*, orders patterns as the doubles they encode are ordered
//! ([`lemma_rank_orders_values`] proves this for the finite ones; the two
//! infinities rank beyond them). The comparisons below follow the hardware:
//! the two zeros are equal, and a comparison with a NaN is false.

use vstd::prelude::*;
use vstd::arithmetic::power2::{pow2, lemma_pow2_pos, lemma_pow2_unfold, lemma_pow2_strictly_increases};

verus! {

/// The sign bit of a pattern.
pub const SIGN_BIT: u64 = 0x8000_0000_0000_0000;

/// The pattern of positive infinity: every larger magnitude is a NaN.
pub const INFINITY_BITS: u64 = 0x7FF0_0000_0000_0000;

/// Two to the fifty-second: the number of fractions that share one exponent.
pub const FRACTION_SPAN: u64 = 0x0010_0000_0000_0000;

/// The pattern of 0.0.
pub const ZERO_BITS: u64 = 0;

/// The pattern of 1.0.
pub const ONE_BITS: u64 = 0x3FF0_0000_0000_0000;

/// The pattern of 2^-52, the gap between 1.0 and the next double.
pub const EPSILON_BITS: u64 = 0x3CB0_0000_0000_0000;

/// A double held as its bit pattern.
#[derive(Clone, Copy, Debug)]
pub struct Scalar {
    pub bits: u64,
}

impl Scalar {
    /// Whether the sign bit is set.
    pub open spec fn negative(self) -> bool {
        self.bits >= SIGN_BIT
    }

    /// The pattern without its sign bit.
    pub open spec fn magnitude(self) -> nat {
        if self.bits >= SIGN_BIT {
            (self.bits - SIGN_BIT) as nat
        } else {
            self.bits as nat
        }
    }

    /// Whether the pattern encodes no number.
    pub open spec fn spec_is_nan(self) -> bool {
        self.magnitude() > INFINITY_BITS
    }

    /// Whether the pattern encodes a number other than the infinities.
    pub open spec fn finite(self) -> bool {
        self.magnitude() < INFINITY_BITS
    }

    /// The signed magnitude. Both zeros have rank 0.
    pub open spec fn rank(self) -> int {
        if self.negative() {
            -(self.magnitude() as int)
        } else {
            self.magnitude() as int
        }
    }

    /// `self < other` as the hardware decides it.
    pub open spec fn spec_lt(self, other: Scalar) -> bool {
        !self.spec_is_nan() && !other.spec_is_nan() && self.rank() < other.rank()
    }

    /// `self <= other` as the hardware decides it.
    pub open spec fn spec_le(self, other: Scalar) -> bool {
        !self.spec_is_nan() && !other.spec_is_nan() && self.rank() <= other.rank()
    }

    /// `self > other` as the hardware decides it.
    pub open spec fn spec_gt(self, other: Scalar) -> bool {
        other.spec_lt(self)
    }

    /// The pattern with its sign bit cleared.
    pub open spec fn spec_abs(self) -> Scalar {
        Scalar { bits: self.magnitude() as u64 }
    }

    /// The integer that a finite pattern encodes once multiplied by 2^1074:
    /// the fraction alone where the exponent field is zero, else the fraction
    /// with its hidden bit, shifted by the exponent field less one.
    pub open spec fn scaled_value(self) -> int
        recommends
            self.finite(),
    {
        let exponent = self.magnitude() / (FRACTION_SPAN as nat);
        let fraction = self.magnitude() % (FRACTION_SPAN as nat);
        let size = if exponent == 0 {
            fraction as int
        } else {
            (FRACTION_SPAN + fraction) * pow2((exponent - 1) as nat)
        };
        if self.negative() {
            -size
        } else {
            size
        }
    }

    /// Wraps the pattern of a double, as the standard library's `to_bits`
    /// returns it.
    pub fn from_bits(bits: u64) -> (s: Scalar)
        ensures
            s.bits == bits,
    {
        Scalar { bits }
    }

    /// The pattern, as the standard library's `from_bits` takes it.
    pub fn to_bits(self) -> (bits: u64)
        ensures
            bits == self.bits,
    {
        self.bits
    }

    /// The number 0.0.
    pub open spec fn spec_zero() -> Scalar {
        Scalar { bits: ZERO_BITS }
    }

    /// The number 1.0.
    pub open spec fn spec_one() -> Scalar {
        Scalar { bits: ONE_BITS }
    }

    /// The machine epsilon, 2^-52.
    pub open spec fn spec_epsilon() -> Scalar {
        Scalar { bits: EPSILON_BITS }
    }

    /// Positive infinity.
    pub open spec fn spec_infinity() -> Scalar {
        Scalar { bits: INFINITY_BITS }
    }

    #[verifier::when_used_as_spec(spec_zero)]
    pub fn zero() -> (s: Scalar)
        ensures
            s == Scalar::spec_zero(),
    {
        Scalar { bits: ZERO_BITS }
    }

    #[verifier::when_used_as_spec(spec_one)]
    pub fn one() -> (s: Scalar)
        ensures
            s == Scalar::spec_one(),
    {
        Scalar { bits: ONE_BITS }
    }

    #[verifier::when_used_as_spec(spec_epsilon)]
    pub fn epsilon() -> (s: Scalar)
        ensures
            s == Scalar::spec_epsilon(),
    {
        Scalar { bits: EPSILON_BITS }
    }

    #[verifier::when_used_as_spec(spec_infinity)]
    pub fn infinity() -> (s: Scalar)
        ensures
            s == Scalar::spec_infinity(),
    {
        Scalar { bits: INFINITY_BITS }
    }

    /// The magnitude as a machine integer.
    fn magnitude_bits(self) -> (m: u64)
        ensures
            m == self.magnitude(),
            m < SIGN_BIT,
    {
        if self.bits >= SIGN_BIT {
            self.bits - SIGN_BIT
        } else {
            self.bits
        }
    }

    /// The rank as a machine integer.
    fn rank_bits(self) -> (r: i64)
        ensures
            r == self.rank(),
    {
        let m: u64 = self.magnitude_bits();
        if self.bits >= SIGN_BIT {
            -(m as i64)
        } else {
            m as i64
        }
    }

    #[verifier::when_used_as_spec(spec_is_nan)]
    pub fn is_nan(self) -> (nan: bool)
        ensures
            nan == self.spec_is_nan(),
    {
        self.magnitude_bits() > INFINITY_BITS
    }

    #[verifier::when_used_as_spec(spec_lt)]
    pub fn lt(self, other: Scalar) -> (less: bool)
        ensures
            less == self.spec_lt(other),
    {
        !self.is_nan() && !other.is_nan() && self.rank_bits() < other.rank_bits()
    }

    #[verifier::when_used_as_spec(spec_le)]
    pub fn le(self, other: Scalar) -> (at_most: bool)
        ensures
            at_most == self.spec_le(other),
    {
        !self.is_nan() && !other.is_nan() && self.rank_bits() <= other.rank_bits()
    }

    #[verifier::when_used_as_spec(spec_gt)]
    pub fn gt(self, other: Scalar) -> (greater: bool)
        ensures
            greater == self.spec_gt(other),
    {
        other.lt(self)
    }

    #[verifier::when_used_as_spec(spec_abs)]
    pub fn abs(self) -> (a: Scalar)
        ensures
            a == self.spec_abs(),
    {
        Scalar { bits: self.magnitude_bits() }
    }
}

/// Within one sign, a larger finite magnitude encodes a larger size.
proof fn lemma_size_grows_with_magnitude(a: Scalar, b: Scalar)
    requires
        a.finite(),
        b.finite(),
        !a.negative(),
        !b.negative(),
        a.magnitude() < b.magnitude(),
    ensures
        a.scaled_value() < b.scaled_value(),
{
    let span = FRACTION_SPAN as nat;
    let ea = a.magnitude() / span;
    let fa = a.magnitude() % span;
    let eb = b.magnitude() / span;
    let fb = b.magnitude() % span;
    if ea == eb {
        if ea > 0 {
            let p = pow2((ea - 1) as nat);
            lemma_pow2_pos((ea - 1) as nat);
            assert((span + fa) * p < (span + fb) * p) by (nonlinear_arith)
                requires
                    fa < fb,
                    p > 0,
            ;
        }
    } else {
        let pb = pow2((eb - 1) as nat);
        lemma_pow2_pos((eb - 1) as nat);
        assert(span * pb <= (span + fb) * pb) by (nonlinear_arith)
            requires
                pb > 0,
                fb >= 0,
        ;
        if ea == 0 {
            assert(span * 1 <= span * pb) by (nonlinear_arith)
                requires
                    pb >= 1,
            ;
        } else {
            let pa = pow2((ea - 1) as nat);
            lemma_pow2_pos((ea - 1) as nat);
            lemma_pow2_unfold(ea);
            if ea < eb - 1 {
                lemma_pow2_strictly_increases(ea, (eb - 1) as nat);
            }
            assert((span + fa) * pa < span * (2 * pa)) by (nonlinear_arith)
                requires
                    fa < span,
                    pa > 0,
            ;
            assert(span * (2 * pa) <= span * pb) by (nonlinear_arith)
                requires
                    2 * pa <= pb,
            ;
        }
    }
}

/// The sizes of the non-negative finite patterns are not negative, and only
/// zero has size 0.
proof fn lemma_size_sign(a: Scalar)
    requires
        a.finite(),
        !a.negative(),
    ensures
        a.scaled_value() >= 0,
        a.scaled_value() == 0 <==> a.magnitude() == 0,
{
    let span = FRACTION_SPAN as nat;
    let e = a.magnitude() / span;
    let f = a.magnitude() % span;
    if e > 0 {
        let p = pow2((e - 1) as nat);
        lemma_pow2_pos((e - 1) as nat);
        assert((span + f) * p > 0) by (nonlinear_arith)
            requires
                span > 0,
                f >= 0,
                p > 0,
        ;
    }
}

/// Rank orders the finite patterns as the numbers they encode are ordered:
/// one pattern ranks below another exactly when it encodes the smaller
/// number, and two patterns share a rank exactly when they encode the same
/// number.
pub proof fn lemma_rank_orders_values(a: Scalar, b: Scalar)
    requires
        a.finite(),
        b.finite(),
    ensures
        a.rank() < b.rank() <==> a.scaled_value() < b.scaled_value(),
        a.rank() == b.rank() <==> a.scaled_value() == b.scaled_value(),
{
    let pa = a.spec_abs();
    let pb = b.spec_abs();
    lemma_size_sign(pa);
    lemma_size_sign(pb);
    if pa.magnitude() < pb.magnitude() {
        lemma_size_grows_with_magnitude(pa, pb);
    } else if pb.magnitude() < pa.magnitude() {
        lemma_size_grows_with_magnitude(pb, pa);
    }
}

} // verus!
