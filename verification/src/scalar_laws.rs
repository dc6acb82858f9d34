//! How numbers by bit pattern are ordered.

use vstd::prelude::*;

use crate::scalar::Real;

verus! {

/// Two numbers compare as their bits do: upwards among those without a sign, downwards among
/// those with one, and a number without a sign is above one with a sign, but for the two
/// zeros. A NaN is above nothing and below nothing, and among numbers exactly one of
/// "above" and "at most" holds.
pub proof fn numbers_compare_by_their_bits(x: Real, y: Real, gt: bool, le: bool)
    requires
        call_ensures(Real::gt, (&x, &y), gt),
        call_ensures(Real::le, (&x, &y), le),
    ensures
        x.nan() || y.nan() ==> !gt && !le,
        !x.nan() && !y.nan() ==> {
            let sign = 0x8000_0000_0000_0000u64;
            &&& gt == !le
            &&& x.bits < sign && y.bits < sign ==> (gt <==> x.bits > y.bits)
            &&& x.bits >= sign && y.bits >= sign ==> (gt <==> x.bits < y.bits)
            &&& x.bits < sign && y.bits >= sign ==> (gt <==> !(x.bits == 0 && y.bits == sign))
            &&& x.bits >= sign && y.bits < sign ==> !gt
        },
{
}

/// The order is transitive, and no two numbers are each above the other.
pub proof fn numbers_are_ordered(x: Real, y: Real, z: Real)
    ensures
        x.above(y) && y.above(z) ==> x.above(z),
        x.at_most(y) && y.at_most(z) ==> x.at_most(z),
        x.at_most(y) && y.above(z) ==> z.nan() || !z.above(y),
        !(x.above(y) && y.above(x)),
        x.above(y) ==> y.at_most(x),
        !x.nan() ==> x.at_most(x),
{
}

/// A NaN has all eleven bits of the exponent set and a fraction that is not zero; a number of
/// finite size has one of the eleven bits clear.
pub proof fn exponents_tell_the_numbers(x: Real, is_nan: bool, is_finite: bool)
    requires
        call_ensures(Real::is_nan, (&x,), is_nan),
        call_ensures(Real::is_finite, (&x,), is_finite),
    ensures
        is_nan <==> x.bits & 0x7ff0_0000_0000_0000 == 0x7ff0_0000_0000_0000 && x.bits
            & 0x000f_ffff_ffff_ffff != 0,
        is_finite <==> x.bits & 0x7ff0_0000_0000_0000 != 0x7ff0_0000_0000_0000,
        is_nan == x.nan(),
        is_finite == x.finite(),
{
    let bits = x.bits;
    assert((bits % 0x8000_0000_0000_0000u64 > 0x7ff0_0000_0000_0000u64) == (bits
        & 0x7ff0_0000_0000_0000 == 0x7ff0_0000_0000_0000 && bits & 0x000f_ffff_ffff_ffff != 0))
        by (bit_vector);
    assert((bits % 0x8000_0000_0000_0000u64 < 0x7ff0_0000_0000_0000u64) == (bits
        & 0x7ff0_0000_0000_0000 != 0x7ff0_0000_0000_0000)) by (bit_vector);
}

/// A value is within a bound where both it and its opposite are below the bound: its sign
/// does not matter, and a NaN is within none.
pub proof fn bounds_are_for_both_signs(x: Real, bound: Real, within: bool, opposite: Real)
    requires
        bound.bits < 0x8000_0000_0000_0000,
        opposite.bits as int == (x.bits + 0x8000_0000_0000_0000int) % 0x1_0000_0000_0000_0000int,
        call_ensures(Real::within, (&x, &bound), within),
    ensures
        within <==> bound.above(x) && bound.above(opposite),
        within ==> !x.nan(),
{
}

} // verus!
