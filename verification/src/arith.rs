//! Integer rounding primitives shared by the statistics and target-time
//! calculations: truncating division, round-half-away-from-zero division,
//! and clamping into the `i64` range.

use vstd::prelude::*;

verus! {

use vstd::arithmetic::div_mod::{
    lemma_div_is_ordered,
    lemma_div_nonincreasing,
    lemma_div_pos_is_pos,
    lemma_fundamental_div_mod,
};

/// Truncating (round-toward-zero) integer division, the semantics of Rust's
/// `/` on signed integers; `d` must be positive.
pub open spec fn trunc_div(n: int, d: int) -> int
    recommends
        d > 0,
{
    if n >= 0 {
        n / d
    } else {
        -((-n) / d)
    }
}

/// `n / d` rounded half away from zero, for a nonnegative dividend and a
/// positive divisor.
pub open spec fn round_half_up(n: int, d: int) -> int
    recommends
        n >= 0,
        d > 0,
{
    (2 * n + d) / (2 * d)
}

/// `n / d` rounded half away from zero, for any signed dividend and a
/// positive divisor.
pub open spec fn round_half_away(n: int, d: int) -> int
    recommends
        d > 0,
{
    if n >= 0 {
        round_half_up(n, d)
    } else {
        -round_half_up(-n, d)
    }
}

/// Clamp an unbounded integer into the `i64` range.
pub open spec fn clamp_i64(x: int) -> int {
    if x > i64::MAX {
        i64::MAX as int
    } else if x < i64::MIN {
        i64::MIN as int
    } else {
        x
    }
}

/// Rounding half away never overshoots a bound on the quotient: if
/// `n <= b * d` then the rounded quotient is at most `b`.
pub proof fn lemma_round_half_up_le(n: int, d: int, b: int)
    requires
        n >= 0,
        d > 0,
        b >= 0,
        n <= b * d,
    ensures
        0 <= round_half_up(n, d) <= b,
{
    let q = round_half_up(n, d);
    lemma_div_pos_is_pos(2 * n + d, 2 * d);
    assert(2 * n + d <= (2 * b + 1) * d) by (nonlinear_arith)
        requires
            n <= b * d,
            d > 0,
    ;
    lemma_div_is_ordered(2 * n + d, (2 * b + 1) * d, 2 * d);
    assert(((2 * b + 1) * d) / (2 * d) <= b) by {
        lemma_fundamental_div_mod((2 * b + 1) * d, 2 * d);
        let qq = ((2 * b + 1) * d) / (2 * d);
        let rr = ((2 * b + 1) * d) % (2 * d);
        assert(0 <= rr < 2 * d) by (nonlinear_arith)
            requires
                d > 0,
                rr == ((2 * b + 1) * d) % (2 * d),
        ;
        assert(qq > b ==> (2 * d) * qq + rr > (2 * b + 1) * d) by (nonlinear_arith)
            requires
                d > 0,
                rr >= 0,
        ;
    }
}

/// Compute `round_half_away(n, d)` on `i128` values.
pub(crate) fn round_half_away_i128(n: i128, d: i128) -> (r: i128)
    requires
        d > 0,
        -(i128::MAX / 4) <= n <= i128::MAX / 4,
        d <= i128::MAX / 4,
    ensures
        r == round_half_away(n as int, d as int),
        if n >= 0 {
            0 <= r <= n
        } else {
            n <= r <= 0
        },
{
    let du = d as u128;
    if n >= 0 {
        let nu = n as u128;
        proof {
            assert(nu as int <= (nu as int) * (du as int)) by (nonlinear_arith)
                requires
                    nu as int >= 0,
                    du as int >= 1,
            ;
            lemma_round_half_up_le(nu as int, du as int, nu as int);
        }
        let q = (2 * nu + du) / (2 * du);
        q as i128
    } else {
        let nu = (-n) as u128;
        proof {
            assert(nu as int <= (nu as int) * (du as int)) by (nonlinear_arith)
                requires
                    nu as int >= 0,
                    du as int >= 1,
            ;
            lemma_round_half_up_le(nu as int, du as int, nu as int);
        }
        let q = (2 * nu + du) / (2 * du);
        -(q as i128)
    }
}

/// Compute `trunc_div(n, d)` on `i128` values.
pub(crate) fn trunc_div_i128(n: i128, d: i128) -> (r: i128)
    requires
        d > 0,
        n > i128::MIN,
    ensures
        r == trunc_div(n as int, d as int),
        (if n >= 0 { 0int } else { n as int }) <= r <= (if n >= 0 { n as int } else { 0int }),
{
    let du = d as u128;
    if n >= 0 {
        let nu = n as u128;
        let q = nu / du;
        proof {
            lemma_div_nonincreasing(nu as int, du as int);
            lemma_div_pos_is_pos(nu as int, du as int);
        }
        q as i128
    } else {
        let nu = (-n) as u128;
        let q = nu / du;
        proof {
            lemma_div_nonincreasing(nu as int, du as int);
            lemma_div_pos_is_pos(nu as int, du as int);
        }
        -(q as i128)
    }
}

/// Clamp an `i128` into the `i64` range.
pub(crate) fn clamp_to_i64(x: i128) -> (r: i64)
    ensures
        r as int == clamp_i64(x as int),
{
    if x > i64::MAX as i128 {
        i64::MAX
    } else if x < i64::MIN as i128 {
        i64::MIN
    } else {
        x as i64
    }
}

} // verus!
