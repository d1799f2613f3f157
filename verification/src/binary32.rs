//! Single-precision numbers by their bit patterns.
//!
//! The aim settings and the stick position are IEEE 754 binary32 numbers. What the library
//! decides about them is a matter of comparing, clamping and choosing, and all of that is
//! settled by the bit pattern alone. Every number that is not a NaN has an exact value here,
//! counted in units of 2^-149, the distance between the two smallest positive numbers.

use vstd::arithmetic::power2::{
    lemma2_to64, lemma_pow2_adds, lemma_pow2_pos, lemma_pow2_strictly_increases, pow2,
};
use vstd::prelude::*;

verus! {

/// A binary32 number, held as its bit pattern.
#[derive(Debug, Clone, Copy, PartialEq, Eq, Structural)]
pub struct Binary32 {
    pub bits: u32,
}

/// The pattern's bits without the sign bit.
pub open spec fn magnitude_of(bits: u32) -> int {
    if bits >= 0x8000_0000 {
        bits - 0x8000_0000
    } else {
        bits as int
    }
}

/// The absolute value of the number with these magnitude bits, in units of 2^-149. The
/// pattern of the infinities is given the value 2^277, above that of every finite number.
pub open spec fn magnitude_units(magnitude: int) -> int {
    let exponent = magnitude / 0x80_0000;
    let fraction = magnitude % 0x80_0000;
    if exponent == 0 {
        fraction
    } else {
        (0x80_0000 + fraction) * pow2((exponent - 1) as nat)
    }
}

impl Binary32 {
    /// Neither a number nor an infinity.
    pub open spec fn nan(self) -> bool {
        magnitude_of(self.bits) > 0x7f80_0000
    }

    /// A number: neither a NaN nor an infinity.
    pub open spec fn finite(self) -> bool {
        magnitude_of(self.bits) < 0x7f80_0000
    }

    /// The exact value, in units of 2^-149. Both zeros have the value 0.
    pub open spec fn units(self) -> int {
        if self.bits >= 0x8000_0000 {
            -magnitude_units(magnitude_of(self.bits))
        } else {
            magnitude_units(magnitude_of(self.bits))
        }
    }

    /// `self < other`; a NaN is below nothing and above nothing.
    pub open spec fn below(self, other: Binary32) -> bool {
        !self.nan() && !other.nan() && self.units() < other.units()
    }

    /// `self <= other`; false wherever a NaN takes part.
    pub open spec fn at_most(self, other: Binary32) -> bool {
        !self.nan() && !other.nan() && self.units() <= other.units()
    }

    /// The number moved into `[lo, hi]`: the bound that it passes, or itself.
    pub open spec fn clamped(self, lo: Binary32, hi: Binary32) -> Binary32 {
        if self.below(lo) {
            lo
        } else if hi.below(self) {
            hi
        } else {
            self
        }
    }

    /// The same number with its sign bit flipped.
    pub open spec fn negated(self) -> Binary32 {
        Binary32 {
            bits: if self.bits >= 0x8000_0000 {
                (self.bits - 0x8000_0000) as u32
            } else {
                (self.bits + 0x8000_0000) as u32
            },
        }
    }

    /// The pattern's rank: patterns are ordered by rank as their values are.
    pub open spec fn rank(self) -> int {
        if self.bits >= 0x8000_0000 {
            -magnitude_of(self.bits)
        } else {
            magnitude_of(self.bits)
        }
    }
}

/// Larger magnitude bits stand for a larger absolute value.
proof fn lemma_magnitude_increases(a: int, b: int)
    requires
        0 <= a < b,
    ensures
        0 <= magnitude_units(a) < magnitude_units(b),
{
    let ea = a / 0x80_0000;
    let eb = b / 0x80_0000;
    let fa = a % 0x80_0000;
    let fb = b % 0x80_0000;
    assert(ea <= eb);
    if eb > 0 {
        let pb = pow2((eb - 1) as nat);
        lemma_pow2_pos((eb - 1) as nat);
        assert((0x80_0000 + fb) * pb >= 0x80_0000 * pb) by (nonlinear_arith)
            requires
                fb >= 0,
                pb > 0,
        ;
        if ea > 0 {
            let pa = pow2((ea - 1) as nat);
            lemma_pow2_pos((ea - 1) as nat);
            assert((0x80_0000 + fa) * pa >= 0) by (nonlinear_arith)
                requires
                    fa >= 0,
                    pa > 0,
            ;
            if ea == eb {
                assert((0x80_0000 + fa) * pa < (0x80_0000 + fb) * pa) by (nonlinear_arith)
                    requires
                        fa < fb,
                        pa > 0,
                ;
            } else {
                // The exponents differ: doubling the smaller scale reaches the larger at most.
                lemma_pow2_adds(1, (ea - 1) as nat);
                lemma2_to64();
                if ea < eb - 1 {
                    lemma_pow2_strictly_increases(ea as nat, (eb - 1) as nat);
                }
                assert(2 * pa <= pb);
                assert((0x80_0000 + fa) * pa < 0x80_0000 * pb) by (nonlinear_arith)
                    requires
                        0 <= fa < 0x80_0000,
                        pa > 0,
                        2 * pa <= pb,
                ;
            }
        } else {
            assert(0x80_0000 * pb >= 0x80_0000) by (nonlinear_arith)
                requires
                    pb > 0,
            ;
        }
    }
}

/// A pattern ranks below another exactly where its value is the smaller one.
pub proof fn lemma_rank_orders(a: Binary32, b: Binary32)
    ensures
        a.units() < b.units() <==> a.rank() < b.rank(),
        a.units() <= b.units() <==> a.rank() <= b.rank(),
{
    let ma = magnitude_of(a.bits);
    let mb = magnitude_of(b.bits);
    if ma < mb {
        lemma_magnitude_increases(ma, mb);
    }
    if mb < ma {
        lemma_magnitude_increases(mb, ma);
    }
    if ma > 0 {
        lemma_magnitude_increases(0, ma);
    }
    if mb > 0 {
        lemma_magnitude_increases(0, mb);
    }
}

/// Flipping the sign turns the value into its opposite and keeps NaNs and numbers apart.
pub proof fn lemma_negated(a: Binary32)
    ensures
        a.negated().units() == -a.units(),
        a.negated().nan() == a.nan(),
        a.negated().negated() == a,
{
}

impl Binary32 {
    /// Whether this is a number, neither a NaN nor an infinity.
    pub fn is_finite(self) -> (r: bool)
        ensures
            r == self.finite(),
    {
        if self.bits >= 0x8000_0000 {
            self.bits - 0x8000_0000 < 0x7f80_0000
        } else {
            self.bits < 0x7f80_0000
        }
    }

    /// Whether this is a NaN.
    pub fn is_nan(self) -> (r: bool)
        ensures
            r == self.nan(),
    {
        if self.bits >= 0x8000_0000 {
            self.bits - 0x8000_0000 > 0x7f80_0000
        } else {
            self.bits > 0x7f80_0000
        }
    }

    /// `self < other`.
    pub fn lt(self, other: Binary32) -> (r: bool)
        ensures
            r == self.below(other),
    {
        proof {
            lemma_rank_orders(self, other);
        }
        if self.is_nan() || other.is_nan() {
            false
        } else if self.bits < 0x8000_0000 {
            other.bits < 0x8000_0000 && self.bits < other.bits
        } else if other.bits < 0x8000_0000 {
            self.bits > 0x8000_0000 || other.bits > 0
        } else {
            other.bits < self.bits
        }
    }

    /// `self <= other`.
    pub fn le(self, other: Binary32) -> (r: bool)
        ensures
            r == self.at_most(other),
    {
        if self.is_nan() || other.is_nan() {
            false
        } else {
            !other.lt(self)
        }
    }

    /// The number moved into `[lo, hi]`. A NaN stays as it is.
    pub fn clamp(self, lo: Binary32, hi: Binary32) -> (r: Binary32)
        requires
            lo.at_most(hi),
        ensures
            r == self.clamped(lo, hi),
    {
        if self.lt(lo) {
            lo
        } else if hi.lt(self) {
            hi
        } else {
            self
        }
    }

    /// The number with its sign flipped.
    pub fn neg(self) -> (r: Binary32)
        ensures
            r == self.negated(),
    {
        if self.bits >= 0x8000_0000 {
            Binary32 { bits: self.bits - 0x8000_0000 }
        } else {
            Binary32 { bits: self.bits + 0x8000_0000 }
        }
    }
}

/// A clamped number lies between the bounds.
pub proof fn clamped_within(v: Binary32, lo: Binary32, hi: Binary32)
    requires
        !v.nan(),
        lo.at_most(hi),
    ensures
        lo.at_most(v.clamped(lo, hi)),
        v.clamped(lo, hi).at_most(hi),
{
}

/// Among numbers that are not negative the order is that of the bit patterns, among negative ones
/// the opposite, and a negative one is below the others, but that the two zeros are equal.
pub proof fn patterns_order_the_numbers(a: Binary32, b: Binary32)
    ensures
        a.bits <= 0x7f80_0000 && b.bits <= 0x7f80_0000 ==> (a.below(b) <==> a.bits < b.bits),
        0x8000_0000 <= a.bits <= 0xff80_0000 && 0x8000_0000 <= b.bits <= 0xff80_0000 ==> (a.below(
            b,
        ) <==> b.bits < a.bits),
        0x8000_0000 <= a.bits <= 0xff80_0000 && b.bits <= 0x7f80_0000 ==> (a.below(b) <==> !(a.bits
            == 0x8000_0000 && b.bits == 0)) && !b.below(a),
{
    lemma_rank_orders(a, b);
    lemma_rank_orders(b, a);
}

/// What is no number is in no order with anything, and clamping leaves it as it is.
pub proof fn nan_has_no_order(a: Binary32, b: Binary32, c: Binary32)
    requires
        0x7f80_0000 < a.bits < 0x8000_0000 || a.bits > 0xff80_0000,
    ensures
        a.nan(),
        !a.finite(),
        !a.below(b),
        !b.below(a),
        !a.at_most(b),
        !b.at_most(a),
        a.clamped(b, c) == a,
{
}

/// Every other pattern is a number, and finite but for the two infinities.
pub proof fn other_patterns_are_numbers(a: Binary32)
    requires
        a.bits <= 0x7f80_0000 || 0x8000_0000 <= a.bits <= 0xff80_0000,
    ensures
        !a.nan(),
        a.finite() <==> a.bits != 0x7f80_0000 && a.bits != 0xff80_0000,
{
}

/// `below` and `at_most` are the two sides of one total order of the numbers.
pub proof fn numbers_are_totally_ordered(a: Binary32, b: Binary32, c: Binary32)
    requires
        !a.nan(),
        !b.nan(),
        !c.nan(),
    ensures
        a.at_most(a),
        a.at_most(b) || b.at_most(a),
        a.at_most(b) && b.at_most(c) ==> a.at_most(c),
        a.below(b) <==> !b.at_most(a),
        a.below(b) ==> a.at_most(b),
{
}

/// Clamping keeps what lies between the bounds and moves what does not to the bound it passes.
pub proof fn clamping_keeps_or_moves_to_a_bound(v: Binary32, lo: Binary32, hi: Binary32)
    requires
        lo.at_most(hi),
    ensures
        lo.at_most(v) && v.at_most(hi) ==> v.clamped(lo, hi) == v,
        v.below(lo) ==> v.clamped(lo, hi) == lo,
        hi.below(v) ==> v.clamped(lo, hi) == hi,
{
}

/// Negating swaps the two halves of the patterns and keeps the rest of a pattern.
pub proof fn negation_flips_the_sign_bit(a: Binary32)
    ensures
        a.bits < 0x8000_0000 ==> a.negated().bits == a.bits + 0x8000_0000,
        a.bits >= 0x8000_0000 ==> a.negated().bits == a.bits - 0x8000_0000,
{
}

/// The two lowest exponents count units one by one, and adding one to any exponent above the
/// lowest doubles the value.
pub proof fn patterns_have_their_values(a: Binary32)
    requires
        a.bits < 0x7f80_0000,
    ensures
        a.bits < 0x100_0000 ==> a.units() == a.bits,
        0x80_0000 <= a.bits < 0x7f00_0000 ==> (Binary32 {
            bits: (a.bits + 0x80_0000) as u32,
        }).units() == 2 * a.units(),
{
    lemma2_to64();
    let m = a.bits as int;
    if 0x80_0000 <= m {
        let e = m / 0x80_0000;
        let f = m % 0x80_0000;
        lemma_pow2_adds(1, (e - 1) as nat);
        assert((m + 0x80_0000) / 0x80_0000 == e + 1);
        assert((m + 0x80_0000) % 0x80_0000 == f);
        let p = pow2((e - 1) as nat);
        assert((0x80_0000 + f) * (2 * p) == 2 * ((0x80_0000 + f) * p)) by (nonlinear_arith);
        if m < 0x100_0000 {
            assert(e == 1 && p == 1);
            assert((0x80_0000 + f) * p == 0x80_0000 + f) by (nonlinear_arith)
                requires
                    p == 1,
            ;
        }
    }
}

} // verus!
