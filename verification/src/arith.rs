//! Integer facts used by the contracts' arithmetic.
use vstd::prelude::*;

verus! {

/// Division truncating toward zero, as signed machine division does (for a positive divisor).
pub open spec fn tdiv(a: int, b: int) -> int {
    if a >= 0 {
        a / b
    } else {
        -((-a) / b)
    }
}

/// `x` is representable as an `i128`.
pub open spec fn fits_i128(x: int) -> bool {
    i128::MIN <= x <= i128::MAX
}

/// Signed division of machine integers, by a positive divisor.
pub fn div_i128(a: i128, b: i128) -> (r: i128)
    requires
        b > 0,
    ensures
        r == tdiv(a as int, b as int),
{
    a / b
}

} // verus!
