//! Fixed-point coordinates: `UNIT` steps make one grid cell.
use vstd::prelude::*;
use vstd::arithmetic::div_mod::lemma_fundamental_div_mod_converse;

verus! {

/// Fixed-point steps per grid cell.
pub const UNIT: i64 = 65536;

/// Division rounding towards negative infinity.
pub fn floor_div(a: i64, b: i64) -> (r: i64)
    requires
        b > 0,
        a > i64::MIN,
    ensures
        r == a / b,
        a >= 0 ==> 0 <= r <= a,
        a < 0 ==> a <= r < 0,
{
    if a >= 0 {
        assert(a / b <= a) by (nonlinear_arith)
            requires a >= 0, b > 0;
        a / b
    } else {
        let na: i64 = -a - 1;
        let q: i64 = na / b;
        proof {
            let rr = na - q * b;
            assert(0 <= rr < b) by (nonlinear_arith)
                requires na >= 0, b > 0, q == na / b, rr == na - q * b;
            assert(a == (-q - 1) * b + (b - 1 - rr)) by (nonlinear_arith)
                requires na == -a - 1, rr == na - q * b;
            assert(a <= -q - 1 < 0) by (nonlinear_arith)
                requires na == -a - 1, rr == na - q * b, 0 <= rr < b, b > 0, na >= 0;
            lemma_fundamental_div_mod_converse(a as int, b as int, -q - 1, b - 1 - rr);
        }
        -q - 1
    }
}

/// `a / b` rounded towards positive infinity, for `b > 0`.
pub open spec fn ceil_of(a: int, b: int) -> int {
    -((-a) / b)
}

/// Division rounding towards positive infinity.
pub fn ceil_div(a: i64, b: i64) -> (r: i64)
    requires
        b > 0,
        a > i64::MIN,
    ensures
        r == ceil_of(a as int, b as int),
{
    -floor_div(-a, b)
}

} // verus!
