//! Saturating integer arithmetic: no operation overflows or faults.

use vstd::prelude::*;

verus! {

/// The nearest `i64` to `v`.
pub open spec fn clamp(v: int) -> i64 {
    if v > i64::MAX {
        i64::MAX
    } else if v < i64::MIN {
        i64::MIN
    } else {
        v as i64
    }
}

/// The quotient of `a` by a nonzero `b`, rounded toward zero.
pub open spec fn quotient(a: int, b: int) -> int {
    if a == 0 {
        0
    } else if a > 0 && b > 0 {
        a / b
    } else if a < 0 && b < 0 {
        (a * -1) / (b * -1)
    } else if a < 0 {
        ((a * -1) / b) * -1
    } else {
        (a / (b * -1)) * -1
    }
}

/// The nearest `u64` to a sum of two.
pub open spec fn capped_sum(a: u64, b: u64) -> u64 {
    if a + b > u64::MAX {
        u64::MAX
    } else {
        (a + b) as u64
    }
}

/// The difference of two `u64`, 0 where it would be negative.
pub open spec fn floored_diff(a: u64, b: u64) -> u64 {
    if a < b {
        0
    } else {
        (a - b) as u64
    }
}

/// The nearest `u64` to a product of two.
pub open spec fn capped_product(a: u64, b: u64) -> u64 {
    if a * b > u64::MAX {
        u64::MAX
    } else {
        (a * b) as u64
    }
}

/// The sum of two `i64`, stopping at the ends of the range.
pub fn sat_add(a: i64, b: i64) -> (r: i64)
    ensures
        r == clamp(a + b),
{
    match a.checked_add(b) {
        Some(r) => r,
        None => if b > 0 {
            i64::MAX
        } else {
            i64::MIN
        },
    }
}

/// The difference of two `i64`, stopping at the ends of the range.
pub fn sat_sub(a: i64, b: i64) -> (r: i64)
    ensures
        r == clamp(a - b),
{
    match a.checked_sub(b) {
        Some(r) => r,
        None => if b > 0 {
            i64::MIN
        } else {
            i64::MAX
        },
    }
}

/// The product of two `i64`, stopping at the ends of the range.
pub fn sat_mul(a: i64, b: i64) -> (r: i64)
    ensures
        r == clamp(a * b),
{
    match a.checked_mul(b) {
        Some(r) => r,
        None => {
            proof {
                assert((a > 0 && b > 0) || (a < 0 && b < 0) ==> a * b > 0) by (nonlinear_arith);
                assert((a > 0 && b < 0) || (a < 0 && b > 0) ==> a * b < 0) by (nonlinear_arith);
                assert(a == 0 || b == 0 ==> a * b == 0) by (nonlinear_arith);
            }
            if (a > 0) == (b > 0) {
                i64::MAX
            } else {
                i64::MIN
            }
        },
    }
}

/// The negative of an `i64`; that of `i64::MIN` is `i64::MAX`.
pub fn sat_neg(a: i64) -> (r: i64)
    ensures
        r == clamp(-a),
{
    if a == i64::MIN {
        i64::MAX
    } else {
        -a
    }
}

/// Division rounded toward zero. The one quotient that does not fit,
/// `i64::MIN / -1`, saturates.
pub fn sat_div(a: i64, b: i64) -> (r: i64)
    requires
        b != 0,
    ensures
        r == clamp(quotient(a as int, b as int)),
{
    match a.checked_div(b) {
        Some(r) => r,
        None => {
            proof {
                lemma_quotient_bounds(a as int, b as int);
            }
            i64::MAX
        },
    }
}

/// A quotient is no larger in magnitude than its dividend.
pub proof fn lemma_quotient_bounds(a: int, b: int)
    requires
        b != 0,
    ensures
        a >= 0 ==> -a <= quotient(a, b) <= a,
        a < 0 ==> a <= quotient(a, b) <= -a,
{
    if a > 0 && b > 0 {
        assert(0 <= a / b <= a) by (nonlinear_arith)
            requires
                a > 0,
                b > 0,
        ;
    } else if a < 0 && b < 0 {
        let x = a * -1;
        let y = b * -1;
        assert(0 <= x / y <= x) by (nonlinear_arith)
            requires
                x > 0,
                y > 0,
        ;
    } else if a < 0 {
        let x = a * -1;
        assert(0 <= x / b <= x) by (nonlinear_arith)
            requires
                x > 0,
                b > 0,
        ;
    } else if a > 0 {
        let y = b * -1;
        assert(0 <= a / y <= a) by (nonlinear_arith)
            requires
                a > 0,
                y > 0,
        ;
    }
}

/// The product of two `u64`, stopping at the top of the range.
pub fn capped_mul(a: u64, b: u64) -> (r: u64)
    ensures
        r == capped_product(a, b),
{
    match a.checked_mul(b) {
        Some(r) => r,
        None => u64::MAX,
    }
}

} // verus!
