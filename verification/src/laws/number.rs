//! Doubles by their bits: which is greater, and what percentage they round to.

use crate::number;
use crate::number::Double;
use vstd::arithmetic::div_mod::*;
use vstd::arithmetic::mul::*;
use vstd::arithmetic::power2::*;
use vstd::prelude::*;

verus! {

/// The patterns above that of infinity stand for no number, whatever their sign.
pub proof fn law_patterns_of_no_number(x: Double)
    ensures
        x.is_nan() <==> x.bits as int % 0x8000_0000_0000_0000 > 0x7ff0_0000_0000_0000,
{
}

/// The numbers are ordered as sign and rest of their bits say: positive ones as their
/// patterns, negative ones the other way round, and a negative one is never above a positive
/// one. Zero with a sign is zero.
pub proof fn law_order_follows_the_bits(x: Double, y: Double)
    ensures
        x.bits < 0x8000_0000_0000_0000 && y.bits < 0x8000_0000_0000_0000 ==> (x.scaled()
            > y.scaled() <==> x.bits > y.bits),
        x.bits >= 0x8000_0000_0000_0000 && y.bits >= 0x8000_0000_0000_0000 ==> (x.scaled()
            > y.scaled() <==> x.bits < y.bits),
        x.bits >= 0x8000_0000_0000_0000 && y.bits < 0x8000_0000_0000_0000 ==> x.scaled()
            <= y.scaled(),
        x.bits < 0x8000_0000_0000_0000 && y.bits >= 0x8000_0000_0000_0000 ==> (x.scaled()
            > y.scaled() <==> x.bits > 0 || y.bits > 0x8000_0000_0000_0000),
{
    let a = x.unsigned();
    let b = y.unsigned();
    assert(number::magnitude_of(0) == 0);
    number::lemma_magnitude_ordered(a, b);
    number::lemma_magnitude_ordered(0, a);
    number::lemma_magnitude_ordered(0, b);
}

/// Up to the second binade a pattern is its own magnitude, and each binade further on doubles
/// it: so are doubles laid out. In these units one is two to the power of 1074.
pub proof fn law_magnitude_doubles_by_binade(unsigned: int)
    requires
        0 <= unsigned,
    ensures
        unsigned < 0x20_0000_0000_0000 ==> number::magnitude_of(unsigned) == unsigned,
        unsigned >= 0x10_0000_0000_0000 ==> number::magnitude_of(unsigned + 0x10_0000_0000_0000)
            == 2 * number::magnitude_of(unsigned),
{
    let e = unsigned / 0x10_0000_0000_0000;
    let m = unsigned % 0x10_0000_0000_0000;
    lemma2_to64();
    if unsigned < 0x20_0000_0000_0000 {
        if e == 1 {
            assert(number::magnitude_of(unsigned) == (0x10_0000_0000_0000 + m) * 1);
        }
    }
    if unsigned >= 0x10_0000_0000_0000 {
        let next = unsigned + 0x10_0000_0000_0000;
        assert(next / 0x10_0000_0000_0000 == e + 1);
        assert(next % 0x10_0000_0000_0000 == m);
        lemma_pow2_unfold(e as nat);
        let p = pow2((e - 1) as nat) as int;
        let w = 0x10_0000_0000_0000 + m;
        assert(w * (2 * p) == 2 * (w * p)) by (nonlinear_arith);
    }
}

/// One is two to the power of 1074 units, and a sign only turns the value round.
pub proof fn law_units()
    ensures
        (Double { bits: 0x3ff0_0000_0000_0000 }).scaled() == pow2(1074),
        forall|x: Double|
            x.bits < 0x8000_0000_0000_0000 ==> #[trigger] x.scaled() == number::magnitude_of(
                x.bits as int,
            ),
        forall|x: Double|
            x.bits >= 0x8000_0000_0000_0000 ==> #[trigger] x.scaled() == -number::magnitude_of(
                x.bits - 0x8000_0000_0000_0000,
            ),
{
    let one = Double { bits: 0x3ff0_0000_0000_0000 };
    assert(one.exponent() == 1023 && one.fraction() == 0);
    lemma2_to64_rest();
    lemma_pow2_adds(52, 1022);
    lemma_mul_is_commutative(pow2(52) as int, pow2(1022) as int);
}

/// A percentage is the nearest whole number, the upper one at a half, held between 0 and 100.
/// What is no number counts as nothing.
pub proof fn law_percentage_is_nearest(x: Double)
    ensures
        0 <= x.percent() <= 100,
        x.is_nan() ==> x.percent() == 0,
        !x.is_nan() && 0 < x.percent() ==> 2 * x.scaled() >= (2 * x.percent() - 1) * pow2(1074),
        !x.is_nan() && x.percent() < 100 ==> 2 * x.scaled() < (2 * x.percent() + 1) * pow2(1074),
{
    if !x.is_nan() {
        let unit = pow2(1074) as int;
        let two = pow2(1075) as int;
        let top = 2 * x.scaled() + unit;
        lemma_pow2_pos(1074);
        lemma_pow2_unfold(1075);
        assert(two == 2 * unit);
        let nearest = top / two;
        lemma_fundamental_div_mod(top, two);
        lemma_mod_bound(top, two);
        assert(two * nearest == 2 * nearest * unit) by (nonlinear_arith)
            requires
                two == 2 * unit,
        ;
        let p = x.percent();
        assert((2 * p - 1) * unit == 2 * p * unit - unit) by (nonlinear_arith);
        assert((2 * p + 1) * unit == 2 * p * unit + unit) by (nonlinear_arith);
        if p <= nearest {
            assert(2 * p * unit <= 2 * nearest * unit) by (nonlinear_arith)
                requires
                    p <= nearest,
                    unit > 0,
            ;
        }
        if nearest <= p {
            assert(2 * nearest * unit <= 2 * p * unit) by (nonlinear_arith)
                requires
                    nearest <= p,
                    unit > 0,
            ;
        }
    }
}

} // verus!
