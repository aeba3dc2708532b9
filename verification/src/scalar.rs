//! Double-precision numbers, carried as their 64-bit patterns.
//!
//! The optimizer never does arithmetic on the numbers it tracks: it stores
//! them, hands them out, and asks which of two is smaller. A [`Scalar`] is
//! therefore the bit pattern of a binary64 value, and this module gives it the
//! numeric order of such values: negative before positive, both zeros equal,
//! and a NaN unordered against everything, itself included.
//!
//! The order is stated over the numbers that the patterns stand for. Every
//! finite binary64 value is a whole multiple of the smallest positive one,
//! 2^-1074, and [`Scalar::value`] is that multiple.

use vstd::arithmetic::power2::{
    lemma2_to64, lemma2_to64_rest, lemma_pow2_adds, lemma_pow2_pos,
    lemma_pow2_strictly_increases, lemma_pow2_unfold, pow2,
};
use vstd::prelude::*;

verus! {

/// The pattern with only the sign bit set (negative zero).
pub const SIGN_BIT: u64 = 0x8000_0000_0000_0000;

/// The pattern of positive infinity: every exponent bit set, no fraction bit.
pub const INFINITY_BITS: u64 = 0x7ff0_0000_0000_0000;

/// The number of patterns that share one exponent: two to the number of
/// fraction bits.
pub const FRACTION_SPAN: u64 = 0x0010_0000_0000_0000;

/// The exponent field with every bit set, which marks infinities and NaNs.
pub const EXPONENT_MAX: u64 = 0x7ff;

/// A binary64 value, held as its bit pattern.
///
/// `==` on scalars compares patterns, so it tells the two zeros apart and
/// finds a NaN equal to itself; the numeric relations are [`Scalar::lt`] and
/// [`Scalar::le`].
#[derive(Clone, Copy, Debug, PartialEq, Eq, Structural)]
pub struct Scalar {
    pub bits: u64,
}

/// The exponent field of a pattern whose sign bit is cleared.
pub open spec fn exponent_of(magnitude: int) -> int {
    magnitude / (FRACTION_SPAN as int)
}

/// The fraction field of a pattern whose sign bit is cleared.
pub open spec fn fraction_of(magnitude: int) -> int {
    magnitude % (FRACTION_SPAN as int)
}

/// The absolute value that a pattern without sign bit stands for, in units
/// of 2^-1074. With exponent field 0 the fraction counts such units itself;
/// above, the fraction extends a leading one, and each further exponent
/// doubles the result. An infinity is given the size that this rule yields
/// for its pattern, which is above that of every finite number.
pub open spec fn size_of(magnitude: int) -> int {
    if exponent_of(magnitude) == 0 {
        fraction_of(magnitude)
    } else {
        (FRACTION_SPAN + fraction_of(magnitude)) * pow2((exponent_of(magnitude) - 1) as nat)
    }
}

impl Scalar {
    /// The pattern with the sign bit cleared.
    pub open spec fn magnitude(self) -> int {
        if self.bits >= SIGN_BIT {
            self.bits - SIGN_BIT
        } else {
            self.bits as int
        }
    }

    /// Whether the sign bit is set.
    pub open spec fn is_negative(self) -> bool {
        self.bits >= SIGN_BIT
    }

    /// Not a number: all exponent bits set and some fraction bit set.
    pub open spec fn spec_is_nan(self) -> bool {
        exponent_of(self.magnitude()) == EXPONENT_MAX && fraction_of(self.magnitude()) != 0
    }

    /// Neither an infinity nor a NaN: some exponent bit is clear.
    pub open spec fn spec_is_finite(self) -> bool {
        exponent_of(self.magnitude()) < EXPONENT_MAX
    }

    /// The number that the pattern stands for, in units of 2^-1074. Both
    /// zeros have value 0. Meaningless for a NaN.
    pub open spec fn value(self) -> int {
        if self.is_negative() {
            -size_of(self.magnitude())
        } else {
            size_of(self.magnitude())
        }
    }

    /// Numerically smaller. False whenever either side is a NaN.
    pub open spec fn spec_lt(self, other: Scalar) -> bool {
        &&& !self.is_nan()
        &&& !other.is_nan()
        &&& self.value() < other.value()
    }

    /// Numerically smaller or equal. False whenever either side is a NaN.
    pub open spec fn le(self, other: Scalar) -> bool {
        &&& !self.is_nan()
        &&& !other.is_nan()
        &&& self.value() <= other.value()
    }

    /// What a tracked value may become once it is only ever replaced by a
    /// numerically smaller one: `self` is `earlier` untouched, or lies
    /// strictly below it.
    pub open spec fn settled_from(self, earlier: Scalar) -> bool {
        self == earlier || self.lt(earlier)
    }

    /// The scalar with the given bit pattern.
    pub fn from_bits(bits: u64) -> (s: Scalar)
        ensures
            s.bits == bits,
    {
        Scalar { bits }
    }

    /// The pattern without its sign bit.
    fn magnitude_bits(self) -> (m: u64)
        ensures
            m == self.magnitude(),
            m < SIGN_BIT,
        no_unwind
    {
        if self.bits >= SIGN_BIT {
            self.bits - SIGN_BIT
        } else {
            self.bits
        }
    }

    #[verifier::when_used_as_spec(spec_is_nan)]
    pub fn is_nan(self) -> (r: bool)
        ensures
            r == self.is_nan(),
        no_unwind
    {
        self.magnitude_bits() > INFINITY_BITS
    }

    #[verifier::when_used_as_spec(spec_is_finite)]
    pub fn is_finite(self) -> (r: bool)
        ensures
            r == self.is_finite(),
        no_unwind
    {
        self.magnitude_bits() < INFINITY_BITS
    }

    /// Decides `self < other` as binary64 arithmetic does.
    #[verifier::when_used_as_spec(spec_lt)]
    pub fn lt(self, other: Scalar) -> (r: bool)
        ensures
            r == self.lt(other),
        no_unwind
    {
        let a: u64 = self.magnitude_bits();
        let b: u64 = other.magnitude_bits();
        if a > INFINITY_BITS || b > INFINITY_BITS {
            return false;
        }
        proof {
            lemma_size_orders_as_magnitude(a as int, b as int);
            lemma_size_orders_as_magnitude(0, a as int);
            lemma_size_orders_as_magnitude(0, b as int);
        }
        let a_negative: bool = self.bits >= SIGN_BIT;
        let b_negative: bool = other.bits >= SIGN_BIT;
        if a_negative {
            if b_negative {
                b < a
            } else {
                a != 0 || b != 0
            }
        } else {
            !b_negative && a < b
        }
    }
}

/// The patterns of one sign are laid out in the order of the sizes they
/// stand for: a larger pattern is a larger size, and only equal patterns are
/// equal sizes. Zero is the pattern of size zero.
pub proof fn lemma_size_orders_as_magnitude(p: int, q: int)
    requires
        0 <= p,
        0 <= q,
    ensures
        p < q <==> size_of(p) < size_of(q),
        p == q <==> size_of(p) == size_of(q),
        size_of(0) == 0,
{
    if p < q {
        lemma_size_grows(p, q);
    } else if q < p {
        lemma_size_grows(q, p);
    }
}

/// A larger pattern stands for a larger size.
proof fn lemma_size_grows(p: int, q: int)
    requires
        0 <= p < q,
    ensures
        size_of(p) < size_of(q),
{
    let span = FRACTION_SPAN as int;
    let (ep, fp) = (exponent_of(p), fraction_of(p));
    let (eq, fq) = (exponent_of(q), fraction_of(q));
    assert(0 <= ep <= eq && 0 <= fp < span && 0 <= fq < span);
    assert(ep == eq ==> fp < fq);
    let high = pow2((eq - 1) as nat) as int;
    if eq > 0 {
        lemma_pow2_pos((eq - 1) as nat);
    }
    if ep == eq {
        if ep > 0 {
            assert((span + fp) * high < (span + fq) * high) by (nonlinear_arith)
                requires
                    fp < fq,
                    high > 0,
            ;
        }
    } else {
        assert(span * high <= (span + fq) * high) by (nonlinear_arith)
            requires
                fq >= 0,
                high > 0,
        ;
        if ep == 0 {
            assert(span <= span * high) by (nonlinear_arith)
                requires
                    span > 0,
                    high > 0,
            ;
        } else {
            let low = pow2((ep - 1) as nat) as int;
            lemma_pow2_pos((ep - 1) as nat);
            lemma_pow2_unfold(ep as nat);
            if ep < eq - 1 {
                lemma_pow2_strictly_increases(ep as nat, (eq - 1) as nat);
            }
            assert((span + fp) * low < span * (2 * low)) by (nonlinear_arith)
                requires
                    fp < span,
                    low > 0,
            ;
            assert(span * (2 * low) <= span * high) by (nonlinear_arith)
                requires
                    2 * low <= high,
                    span > 0,
            ;
        }
    }
}

/// The unit is right: the pattern of the number one has the value 2^1074.
pub proof fn lemma_value_of_one(one: Scalar)
    requires
        one.bits == 0x3ff0_0000_0000_0000,
    ensures
        one.value() == pow2(1074),
        !one.is_nan(),
        one.is_finite(),
{
    lemma2_to64();
    lemma2_to64_rest();
    lemma_pow2_adds(52, 1022);
    assert(exponent_of(one.magnitude()) == 1023);
    assert(fraction_of(one.magnitude()) == 0);
}

/// No number is smaller than itself.
pub proof fn lemma_lt_irreflexive(a: Scalar)
    ensures
        !a.lt(a),
{
}

/// Smaller than smaller is smaller.
pub proof fn lemma_lt_transitive(a: Scalar, b: Scalar, c: Scalar)
    requires
        a.lt(b),
        b.lt(c),
    ensures
        a.lt(c),
{
}

/// Any two numbers are comparable: where neither is a NaN, one is at most
/// the other or lies strictly above it.
pub proof fn lemma_numbers_are_comparable(a: Scalar, b: Scalar)
    requires
        !a.is_nan(),
        !b.is_nan(),
    ensures
        a.le(b) || b.lt(a),
{
}

/// The two zeros are one number: neither is smaller than the other.
pub proof fn lemma_zeros_are_equal(positive: Scalar, negative: Scalar)
    requires
        positive.bits == 0,
        negative.bits == SIGN_BIT,
    ensures
        positive.value() == 0,
        negative.value() == 0,
        positive.le(negative),
        negative.le(positive),
{
}

/// Numbers that are equal in value are the same pattern, but for the two
/// zeros.
pub proof fn lemma_equal_values_are_equal_patterns(a: Scalar, b: Scalar)
    requires
        !a.is_nan(),
        !b.is_nan(),
        a.value() == b.value(),
    ensures
        a == b || a.value() == 0,
{
    lemma_size_orders_as_magnitude(a.magnitude(), b.magnitude());
    lemma_size_orders_as_magnitude(0, a.magnitude());
    lemma_size_orders_as_magnitude(0, b.magnitude());
}

/// A settled value is never numerically above the value it started from, and
/// where that value was a number it is at most that number.
pub proof fn lemma_settled_is_not_above(later: Scalar, earlier: Scalar)
    requires
        later.settled_from(earlier),
    ensures
        !earlier.lt(later),
        !earlier.is_nan() ==> later.le(earlier),
{
}

/// Settling composes: a value settled from one that was itself settled from
/// a third is settled from the third.
pub proof fn lemma_settled_transitive(a: Scalar, b: Scalar, c: Scalar)
    requires
        a.settled_from(b),
        b.settled_from(c),
    ensures
        a.settled_from(c),
{
}

} // verus!
