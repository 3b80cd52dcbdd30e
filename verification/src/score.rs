//! Risk scores and the order between them.

use vstd::arithmetic::power2::*;
use vstd::prelude::*;

verus! {

/// A double-precision number, held as the bits of its IEEE 754 encoding.
#[derive(Debug, Clone, Copy, PartialEq, Eq, Structural)]
pub struct Score {
    pub bits: u64,
}

/// The sign bit of a double.
pub const SIGN: u64 = 0x8000_0000_0000_0000;

/// The bits of positive infinity.
pub const INFINITY: u64 = 0x7ff0_0000_0000_0000;

/// The bits of 0.5.
pub const ONE_HALF: u64 = 0x3fe0_0000_0000_0000;

/// One more than the largest fraction field of a double.
pub const FRACTIONS: u64 = 0x0010_0000_0000_0000;

/// The size of the double with the exponent and fraction fields `magnitude`, in
/// units of the smallest positive one. Infinity counts as the size that would
/// follow that of the largest finite double.
pub open spec fn size(magnitude: nat) -> nat {
    let exponent = magnitude / (FRACTIONS as nat);
    let fraction = magnitude % (FRACTIONS as nat);
    if exponent == 0 {
        fraction
    } else {
        (FRACTIONS + fraction) as nat * pow2((exponent - 1) as nat)
    }
}

impl Score {
    /// The exponent and fraction fields.
    pub open spec fn magnitude(self) -> nat {
        if self.bits >= SIGN {
            (self.bits - SIGN) as nat
        } else {
            self.bits as nat
        }
    }

    /// The encoding stands for no number.
    pub open spec fn is_nan(self) -> bool {
        self.magnitude() > INFINITY
    }

    /// The number, in units of the smallest positive double.
    pub open spec fn value(self) -> int {
        if self.bits >= SIGN {
            -(size(self.magnitude()) as int)
        } else {
            size(self.magnitude()) as int
        }
    }

    /// Both are numbers, and this one is not the smaller.
    pub open spec fn is_at_least(self, other: Score) -> bool {
        !self.is_nan() && !other.is_nan() && self.value() >= other.value()
    }

    /// The score with the given IEEE 754 bits.
    pub fn from_bits(bits: u64) -> (r: Score)
        ensures
            r.bits == bits,
    {
        Score { bits }
    }

    /// The IEEE 754 bits of the score.
    pub fn to_bits(self) -> (r: u64)
        ensures
            r == self.bits,
    {
        self.bits
    }

    /// Whether this score is greater than or equal to the other, as doubles
    /// compare: never where one of them is not a number.
    pub fn at_least(self, other: Score) -> (r: bool)
        ensures
            r == self.is_at_least(other),
    {
        let a: u64 = if self.bits >= SIGN {
            self.bits - SIGN
        } else {
            self.bits
        };
        let b: u64 = if other.bits >= SIGN {
            other.bits - SIGN
        } else {
            other.bits
        };
        if a > INFINITY || b > INFINITY {
            return false;
        }
        proof {
            lemma_size_orders(a as nat, b as nat);
            lemma_size_orders(b as nat, a as nat);
            lemma_size_orders(0, a as nat);
            lemma_size_orders(0, b as nat);
            assert(size(0) == 0);
        }
        if self.bits < SIGN {
            other.bits >= SIGN || a >= b
        } else if other.bits < SIGN {
            a == 0 && b == 0
        } else {
            a <= b
        }
    }
}

/// The next magnitude has the greater size.
proof fn lemma_size_step(magnitude: nat)
    ensures
        size(magnitude) < size(magnitude + 1),
{
    let n = FRACTIONS as nat;
    let exponent = magnitude / n;
    let fraction = magnitude % n;
    assert(magnitude == n * exponent + fraction) by (nonlinear_arith)
        requires
            n > 0,
            exponent == magnitude / n,
            fraction == magnitude % n,
    ;
    if fraction + 1 < n {
        vstd::arithmetic::div_mod::lemma_fundamental_div_mod_converse(
            (magnitude + 1) as int,
            n as int,
            exponent as int,
            (fraction + 1) as int,
        );
        if exponent > 0 {
            lemma_pow2_pos((exponent - 1) as nat);
            let p = pow2((exponent - 1) as nat);
            assert((n + fraction) * p < (n + fraction + 1) * p) by (nonlinear_arith)
                requires
                    p > 0,
            ;
        }
    } else {
        vstd::arithmetic::div_mod::lemma_fundamental_div_mod_converse(
            (magnitude + 1) as int,
            n as int,
            (exponent + 1) as int,
            0,
        );
        if exponent == 0 {
            lemma2_to64();
        } else {
            let p = pow2((exponent - 1) as nat);
            lemma_pow2_pos((exponent - 1) as nat);
            lemma_pow2_unfold(exponent);
            assert((n + fraction) * p < (n + 0) * (2 * p)) by (nonlinear_arith)
                requires
                    p > 0,
                    fraction + 1 == n,
            ;
        }
    }
}

/// Magnitudes are ordered as their sizes.
pub proof fn lemma_size_orders(a: nat, b: nat)
    ensures
        a < b <==> size(a) < size(b),
    decreases a + b, if b < a { 1int } else { 0int },
{
    if a < b {
        lemma_size_step((b - 1) as nat);
        if a < b - 1 {
            lemma_size_orders(a, (b - 1) as nat);
        }
    } else if b < a {
        lemma_size_orders(b, a);
    }
}

/// A score at or above a hit is a hit as well, and a score that meets a
/// threshold meets every lower one.
pub proof fn law_threshold_monotone(low: Score, high: Score, other: Score)
    requires
        high.is_at_least(low),
    ensures
        low.is_at_least(other) ==> high.is_at_least(other),
        other.is_at_least(high) ==> other.is_at_least(low),
{
}

/// A score that is a number meets itself as a threshold.
pub proof fn law_threshold_is_met(score: Score)
    requires
        !score.is_nan(),
    ensures
        score.is_at_least(score),
{
}

/// The encodings that stand for no number are those beyond the infinities.
pub proof fn law_nan_bits(score: Score)
    ensures
        score.is_nan() <==> {
            ||| 0x7ff0_0000_0000_0000 < score.bits < 0x8000_0000_0000_0000
            ||| 0xfff0_0000_0000_0000 < score.bits
        },
{
}

/// One more in the exponent doubles the size.
proof fn lemma_size_doubles(magnitude: nat)
    requires
        FRACTIONS <= magnitude,
    ensures
        size((magnitude + FRACTIONS) as nat) == 2 * size(magnitude),
{
    let n = FRACTIONS as nat;
    let exponent = magnitude / n;
    let fraction = magnitude % n;
    assert(magnitude == n * exponent + fraction && exponent > 0 && n * (exponent + 1) == n
        * exponent + n) by (nonlinear_arith)
        requires
            0 < n <= magnitude,
            exponent == magnitude / n,
            fraction == magnitude % n,
    ;
    vstd::arithmetic::div_mod::lemma_fundamental_div_mod_converse(
        (magnitude + n) as int,
        n as int,
        (exponent + 1) as int,
        fraction as int,
    );
    lemma_pow2_unfold(exponent);
    let p = pow2((exponent - 1) as nat);
    assert((n + fraction) * (2 * p) == 2 * ((n + fraction) * p)) by (nonlinear_arith);
}

/// What the bits say of the number: the smallest doubles are evenly spaced, one
/// more in the exponent doubles the number, and the sign bit turns it round.
pub proof fn law_value_of_bits(bits: u64)
    requires
        bits < SIGN,
    ensures
        bits < 2 * FRACTIONS ==> (Score { bits }).value() == bits,
        FRACTIONS <= bits && bits + FRACTIONS < SIGN ==> (Score {
            bits: (bits + FRACTIONS) as u64,
        }).value() == 2 * (Score { bits }).value(),
        (Score { bits: (bits + SIGN) as u64 }).value() == -(Score { bits }).value(),
{
    let m = bits as nat;
    let n = FRACTIONS as nat;
    assert((Score { bits: (bits + SIGN) as u64 }).magnitude() == m);
    if bits < FRACTIONS {
        assert(m / n == 0 && m % n == m) by (nonlinear_arith)
            requires
                0 <= m < n,
        ;
    } else {
        lemma_size_doubles(m);
        if bits < 2 * FRACTIONS {
            assert(m / n == 1 && m % n == m - n) by (nonlinear_arith)
                requires
                    n <= m < 2 * n,
            ;
            lemma2_to64();
            assert(size(m) == (n + (m - n)) as nat * pow2(0));
        }
    }
}

/// How the order of two scores shows in their bits: without a sign the greater
/// bits are the greater number, with one the smaller; a number without a sign is
/// never below one with it, and only zero is not above it. What is no number
/// compares with nothing.
pub proof fn law_order_of_bits(a: Score, b: Score)
    ensures
        a.is_nan() || b.is_nan() ==> !a.is_at_least(b),
        !a.is_nan() && !b.is_nan() ==> (a.is_at_least(b) <==> if a.bits < SIGN {
            b.bits >= SIGN || a.bits >= b.bits
        } else if b.bits < SIGN {
            a.bits == SIGN && b.bits == 0
        } else {
            a.bits <= b.bits
        }),
{
    lemma_size_orders(a.magnitude(), b.magnitude());
    lemma_size_orders(b.magnitude(), a.magnitude());
    lemma_size_orders(0, a.magnitude());
    lemma_size_orders(0, b.magnitude());
    assert(size(0) == 0);
}

} // verus!
