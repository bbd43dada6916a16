//! Double-precision numbers, held by their bit patterns.
//!
//! Costs and usage percentages arrive as IEEE 754 doubles. The library only ever
//! compares two of them or rounds one to a whole percentage, and does both on the bits.

use vstd::arithmetic::div_mod::*;
use vstd::arithmetic::mul::*;
use vstd::arithmetic::power2::*;
use vstd::prelude::*;

verus! {

/// A double-precision number: one sign bit, eleven exponent bits, fifty-two fraction bits.
#[derive(Debug, Clone, Copy, PartialEq, Eq, Structural)]
pub struct Double {
    pub bits: u64,
}

/// Two to the power of sixty-three: the weight of the sign bit.
pub const SIGN: u64 = 0x8000_0000_0000_0000;

/// Two to the power of fifty-two: the weight of the lowest exponent bit.
pub const UNIT: u64 = 0x10_0000_0000_0000;

impl Double {
    pub open spec fn is_negative(self) -> bool {
        self.bits >= SIGN
    }

    /// The pattern without its sign bit.
    pub open spec fn unsigned(self) -> int {
        self.bits as int % SIGN as int
    }

    pub open spec fn exponent(self) -> int {
        self.unsigned() / UNIT as int
    }

    pub open spec fn fraction(self) -> int {
        self.unsigned() % UNIT as int
    }

    /// Patterns that stand for no number.
    pub open spec fn is_nan(self) -> bool {
        self.exponent() == 2047 && self.fraction() != 0
    }

    /// The absolute value, in units of two to the power of minus 1074. Infinity counts
    /// as the value that its exponent would give, which is above every finite one.
    pub open spec fn magnitude(self) -> int {
        magnitude_of(self.unsigned())
    }

    /// The value, in units of two to the power of minus 1074.
    pub open spec fn scaled(self) -> int {
        if self.is_negative() {
            -self.magnitude()
        } else {
            self.magnitude()
        }
    }

    /// The nearest whole number, halves rounded up, held between 0 and 100.
    pub open spec fn percent(self) -> int {
        let nearest = (2 * self.scaled() + pow2(1074)) / pow2(1075) as int;
        if self.is_nan() || nearest < 0 {
            0
        } else if nearest > 100 {
            100
        } else {
            nearest
        }
    }

    /// Whether this number is greater than another. No comparison with a pattern that
    /// stands for no number holds.
    pub fn exceeds(&self, other: &Double) -> (greater: bool)
        ensures
            greater == (!self.is_nan() && !other.is_nan() && self.scaled() > other.scaled()),
    {
        let a: u64 = self.bits % SIGN;
        let b: u64 = other.bits % SIGN;
        if a / UNIT == 2047 && a % UNIT != 0 || b / UNIT == 2047 && b % UNIT != 0 {
            return false;
        }
        let a_negative: bool = self.bits >= SIGN;
        let b_negative: bool = other.bits >= SIGN;
        proof {
            assert(magnitude_of(0) == 0);
            lemma_magnitude_ordered(a as int, b as int);
            lemma_magnitude_ordered(0, a as int);
            lemma_magnitude_ordered(0, b as int);
        }
        if !a_negative && !b_negative {
            a > b
        } else if a_negative && b_negative {
            a < b
        } else if a_negative {
            false
        } else {
            a > 0 || b > 0
        }
    }

    /// Rounds to the nearest whole percentage between 0 and 100.
    pub fn rounded_percent(&self) -> (pct: u8)
        ensures
            pct == self.percent(),
            pct <= 100,
    {
        let rest: u64 = self.bits % SIGN;
        let exponent: u64 = rest / UNIT;
        let fraction: u64 = rest % UNIT;
        proof {
            lemma_pow2_pos(1074);
            lemma_pow2_pos(1075);
            lemma_pow2_unfold(1075);
        }
        if exponent == 2047 && fraction != 0 {
            return 0;
        }
        if self.bits >= SIGN {
            proof {
                lemma_magnitude_positive(rest as int);
                lemma_div_is_ordered(
                    2 * self.scaled() + pow2(1074),
                    pow2(1074) as int,
                    pow2(1075) as int,
                );
                lemma_basic_div(pow2(1074) as int, pow2(1075) as int);
            }
            return 0;
        }
        if exponent < 1022 {
            proof {
                lemma_magnitude_positive(rest as int);
                lemma_small(rest as int);
                lemma_basic_div(2 * self.scaled() + pow2(1074), pow2(1075) as int);
            }
            return 0;
        }
        if exponent > 1029 {
            proof {
                lemma_large(rest as int);
                lemma_div_is_ordered(
                    101 * pow2(1075) as int,
                    2 * self.scaled() + pow2(1074),
                    pow2(1075) as int,
                );
                lemma_div_by_multiple(101, pow2(1075) as int);
            }
            return 100;
        }
        let mut unit: u64 = 0x20_0000_0000_0000;
        let mut k: u64 = 1022;
        proof {
            lemma2_to64_rest();
        }
        while k < exponent
            invariant
                1022 <= k <= exponent <= 1029,
                unit == pow2((1075 - k) as nat),
                2 <= unit <= 0x20_0000_0000_0000,
            decreases exponent - k,
        {
            proof {
                lemma_pow2_unfold((1075 - k) as nat);
                lemma2_to64_rest();
                lemma_pow2_monotonic(46, (1075 - k - 1) as nat);
            }
            unit = unit / 2;
            k = k + 1;
        }
        let nearest: u64 = (UNIT + fraction + unit / 2) / unit;
        proof {
            lemma_middle(rest as int, unit as int);
        }
        if nearest > 100 {
            100
        } else {
            nearest as u8
        }
    }
}

/// The absolute value that a pattern without sign bit stands for, in units of two to the
/// power of minus 1074.
pub open spec fn magnitude_of(unsigned: int) -> int {
    let exponent = unsigned / UNIT as int;
    let fraction = unsigned % UNIT as int;
    if exponent == 0 {
        fraction
    } else {
        (UNIT + fraction) * pow2((exponent - 1) as nat)
    }
}

proof fn lemma_pow2_monotonic(a: nat, b: nat)
    requires
        a <= b,
    ensures
        pow2(a) <= pow2(b),
{
    if a < b {
        lemma_pow2_strictly_increases(a, b);
    }
}

proof fn lemma_magnitude_positive(x: int)
    requires
        0 <= x < SIGN,
    ensures
        magnitude_of(x) >= 0,
{
    let exponent = x / UNIT as int;
    if exponent > 0 {
        lemma_pow2_pos((exponent - 1) as nat);
        lemma_mul_nonnegative(
            UNIT + x % UNIT as int,
            pow2((exponent - 1) as nat) as int,
        );
    }
}

/// The patterns without sign bit are ordered as the values they stand for.
pub proof fn lemma_magnitude_ordered(x: int, y: int)
    requires
        0 <= x < SIGN,
        0 <= y < SIGN,
    ensures
        x < y <==> magnitude_of(x) < magnitude_of(y),
        x == y <==> magnitude_of(x) == magnitude_of(y),
{
    if x < y {
        lemma_magnitude_increases(x, y);
    } else if y < x {
        lemma_magnitude_increases(y, x);
    }
}

proof fn lemma_magnitude_increases(x: int, y: int)
    requires
        0 <= x < y < SIGN,
    ensures
        magnitude_of(x) < magnitude_of(y),
{
    let e1 = x / UNIT as int;
    let e2 = y / UNIT as int;
    let m1 = x % UNIT as int;
    let m2 = y % UNIT as int;
    assert(e1 <= e2);
    if e1 == e2 {
        assert(m1 < m2);
        if e1 > 0 {
            lemma_pow2_pos((e1 - 1) as nat);
            lemma_mul_strict_inequality(UNIT + m1, UNIT + m2, pow2((e1 - 1) as nat) as int);
        }
    } else {
        let p2 = pow2((e2 - 1) as nat) as int;
        lemma_pow2_pos((e2 - 1) as nat);
        assert(magnitude_of(y) >= UNIT * p2) by {
            lemma_mul_inequality(UNIT as int, UNIT + m2, p2);
        }
        if e1 == 0 {
            assert(UNIT * p2 >= UNIT) by {
                lemma_mul_inequality(1, p2, UNIT as int);
                lemma_mul_is_commutative(UNIT as int, p2);
            }
        } else {
            let p1 = pow2((e1 - 1) as nat) as int;
            lemma_pow2_pos((e1 - 1) as nat);
            lemma_pow2_unfold(e1 as nat);
            lemma_pow2_monotonic(e1 as nat, (e2 - 1) as nat);
            assert(2 * p1 <= p2);
            lemma_mul_strict_inequality(UNIT + m1, 2 * UNIT, p1);
            assert(2 * UNIT * p1 == UNIT * (2 * p1)) by (nonlinear_arith);
            lemma_mul_inequality(2 * p1, p2, UNIT as int);
            lemma_mul_is_commutative(UNIT as int, p2);
            lemma_mul_is_commutative(UNIT as int, 2 * p1);
        }
    }
}

proof fn lemma_small(x: int)
    requires
        0 <= x < SIGN,
        x / UNIT as int <= 1021,
    ensures
        2 * magnitude_of(x) + pow2(1074) < pow2(1075),
{
    let e = x / UNIT as int;
    let m = x % UNIT as int;
    lemma_pow2_unfold(1075);
    lemma_pow2_unfold(1074);
    lemma2_to64_rest();
    assert(pow2(52) == UNIT);
    lemma_pow2_adds(53, 1020);
    lemma_pow2_unfold(53);
    if e == 0 {
        lemma_pow2_monotonic(53, 1073);
    } else {
        let p = pow2((e - 1) as nat) as int;
        lemma_pow2_pos((e - 1) as nat);
        lemma_mul_strict_inequality(UNIT + m, 2 * UNIT, p);
        lemma_pow2_monotonic((e - 1) as nat, 1020);
        lemma_mul_inequality(p, pow2(1020) as int, 2 * UNIT);
        lemma_mul_is_commutative(2 * UNIT, p);
        lemma_mul_is_commutative(2 * UNIT, pow2(1020) as int);
    }
}

proof fn lemma_large(x: int)
    requires
        0 <= x < SIGN,
        x / UNIT as int >= 1030,
    ensures
        2 * magnitude_of(x) + pow2(1074) >= 101 * pow2(1075),
{
    let e = x / UNIT as int;
    let m = x % UNIT as int;
    let p = pow2((e - 1) as nat) as int;
    lemma_pow2_pos((e - 1) as nat);
    lemma2_to64_rest();
    lemma2_to64();
    lemma_pow2_monotonic(1029, (e - 1) as nat);
    lemma_mul_inequality(UNIT as int, UNIT + m, p);
    lemma_mul_inequality(pow2(1029) as int, p, UNIT as int);
    lemma_mul_is_commutative(UNIT as int, p);
    lemma_pow2_adds(52, 1029);
    lemma_mul_is_commutative(UNIT as int, pow2(1029) as int);
    lemma_pow2_adds(7, 1074);
    lemma_pow2_unfold(1075);
}

proof fn lemma_middle(x: int, unit: int)
    requires
        0 <= x < SIGN,
        1022 <= x / UNIT as int <= 1029,
        unit == pow2((1075 - x / UNIT as int) as nat),
    ensures
        (2 * magnitude_of(x) + pow2(1074)) / pow2(1075) as int == (UNIT + x % UNIT as int + unit
            / 2) / unit,
{
    let e = x / UNIT as int;
    let m = UNIT + x % UNIT as int;
    let s = (1075 - e) as nat;
    let low = pow2(e as nat) as int;
    lemma_pow2_pos(e as nat);
    lemma_pow2_pos(s);
    lemma_pow2_unfold(e as nat);
    lemma_pow2_unfold(s);
    let half = pow2((s - 1) as nat) as int;
    assert(unit / 2 == half);
    lemma_pow2_adds(e as nat, s);
    lemma_pow2_adds(e as nat, (s - 1) as nat);
    assert(2 * magnitude_of(x) == low * m) by {
        let p = pow2((e - 1) as nat) as int;
        assert(2 * (m * p) == (2 * p) * m) by (nonlinear_arith);
    }
    lemma_mul_is_distributive_add(low, m, half);
    lemma_mul_strictly_positive(low, m);
    lemma_pow2_pos((s - 1) as nat);
    lemma_mul_strictly_positive(low, half);
    lemma_div_denominator(low * (m + half), low, unit);
    lemma_div_multiples_vanish(m + half, low);
}

} // verus!
