//! Integer helpers shared by the programs: the standard library's saturating
//! operations that vstd leaves unspecified, and the mathematical meaning of
//! Rust's truncating signed division.

use vstd::prelude::*;

verus! {

/// Rust's `/` on signed integers: the quotient rounded toward zero.
pub open spec fn trunc_div(a: int, b: int) -> int {
    if a >= 0 && b > 0 {
        a / b
    } else if a < 0 && b < 0 {
        (-a) / (-b)
    } else if a < 0 && b > 0 {
        -((-a) / b)
    } else if a >= 0 && b < 0 {
        -(a / (-b))
    } else {
        0
    }
}

/// `x * y` clamped to the range of `u64`.
pub open spec fn sat_mul_u64(x: int, y: int) -> int {
    if x * y > u64::MAX { u64::MAX as int } else { x * y }
}

/// `v` clamped to the range of `i64`.
pub open spec fn sat_i64(v: int) -> int {
    if v > i64::MAX { i64::MAX as int } else if v < i64::MIN { i64::MIN as int } else { v }
}

/// `u64::saturating_mul`: the product, or `u64::MAX` where it does not fit.
pub assume_specification[<u64>::saturating_mul](x: u64, y: u64) -> (r: u64)
    ensures
        r == sat_mul_u64(x as int, y as int),
;

/// `i64::saturating_add`: the sum, clamped to `i64::MIN ..= i64::MAX`.
pub assume_specification[<i64>::saturating_add](x: i64, y: i64) -> (r: i64)
    ensures
        r == sat_i64(x + y),
;

/// `i64::saturating_sub`: the difference, clamped to `i64::MIN ..= i64::MAX`.
pub assume_specification[<i64>::saturating_sub](x: i64, y: i64) -> (r: i64)
    ensures
        r == sat_i64(x - y),
;

/// A `u64` reinterpreted as `i64` (as `x as i64` does: values above
/// `i64::MAX` wrap to negatives).
pub open spec fn as_i64(x: u64) -> int {
    (x as i64) as int
}

/// `|a - b|`.
pub open spec fn abs_diff(a: int, b: int) -> int {
    if a > b { a - b } else { b - a }
}

/// How far `new` moved away from `old`, in basis points of `old`, with the
/// scaled difference saturating at `u64::MAX`; zero when `old` is zero.
pub open spec fn bps_move(old: int, new: int) -> int {
    if old == 0 { 0 } else { sat_mul_u64(abs_diff(old, new), 10_000) / old }
}

/// What a basis-point move means: for a nonzero `old`, `bps_move` is the
/// largest `b` with `b * old <= |new - old| * 10_000` (the scaled difference
/// saturating at `u64::MAX`).
pub proof fn law_bps_move_meaning(old: u64, new: u64)
    requires
        old > 0,
    ensures
        ({
            let d = if new > old { new - old } else { old - new };
            let scaled = if d * 10_000 > u64::MAX { u64::MAX as int } else { d * 10_000 };
            let b = bps_move(old as int, new as int);
            &&& b * old <= scaled < (b + 1) * old
            &&& (d * 10_000 <= u64::MAX ==> (b <= 200 <==> d * 10_000 < 201 * old))
        }),
{
    let d = if new > old { new - old } else { old - new };
    let scaled = if d * 10_000 > u64::MAX { u64::MAX as int } else { d * 10_000 };
    let b = scaled / (old as int);
    vstd::arithmetic::div_mod::lemma_fundamental_div_mod(scaled, old as int);
    vstd::arithmetic::div_mod::lemma_mod_pos_bound(scaled, old as int);
    assert(b * old <= scaled < (b + 1) * old) by (nonlinear_arith)
        requires
            scaled == old * b + scaled % (old as int),
            0 <= scaled % (old as int) < old,
    ;
    if d * 10_000 <= u64::MAX {
        if b <= 200 {
            assert((b + 1) * old <= 201 * old) by (nonlinear_arith)
                requires
                    b <= 200,
                    old > 0,
            ;
        } else {
            assert(201 * old <= b * old) by (nonlinear_arith)
                requires
                    b >= 201,
                    old > 0,
            ;
        }
    }
}

} // verus!
