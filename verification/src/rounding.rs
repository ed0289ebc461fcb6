//! Integer quotients rounded down and rounded to nearest, and the multiples
//! of a step that they select. Pure mathematics over `int`; the decimal
//! arithmetic is stated in these terms.

use vstd::arithmetic::div_mod::{lemma_fundamental_div_mod, lemma_fundamental_div_mod_converse, lemma_mod_bound};
use vstd::prelude::*;

verus! {

/// The absolute value.
pub open spec fn abs(x: int) -> int {
    if x < 0 {
        -x
    } else {
        x
    }
}

/// The largest integer at most `a / b`, for `b` of either sign.
pub open spec fn floor_div(a: int, b: int) -> int
    recommends
        b != 0,
{
    if b > 0 {
        a / b
    } else {
        (-a) / (-b)
    }
}

/// The integer nearest to `a / b`; of two equally near, the even one.
pub open spec fn nearest_even_div(a: int, b: int) -> int
    recommends
        b != 0,
{
    let n = if b > 0 {
        a
    } else {
        -a
    };
    let d = abs(b);
    let q = n / d;
    let r = n % d;
    if 2 * r < d || (2 * r == d && q % 2 == 0) {
        q
    } else {
        q + 1
    }
}

/// The largest multiple of `step` at or below `x` in the direction of
/// rounding down the quotient; `x` itself where `step` is zero.
pub open spec fn floor_to_step(x: int, step: int) -> int {
    if step == 0 {
        x
    } else {
        floor_div(x, step) * step
    }
}

/// The multiple of `step` nearest to `x`, ties going to the even multiple;
/// `x` itself where `step` is zero.
pub open spec fn round_to_step(x: int, step: int) -> int {
    if step == 0 {
        x
    } else {
        nearest_even_div(x, step) * step
    }
}

/// Quotient and remainder of a division by a positive number.
pub proof fn lemma_div_rem(n: int, d: int)
    requires
        d > 0,
    ensures
        n == (n / d) * d + n % d,
        0 <= n % d < d,
{
    lemma_fundamental_div_mod(n, d);
    lemma_mod_bound(n, d);
    assert(d * (n / d) == (n / d) * d) by (nonlinear_arith);
}

/// The floor quotient brackets the dividend between two neighbouring
/// multiples of the divisor.
pub proof fn lemma_floor_div_bounds(a: int, b: int)
    requires
        b != 0,
    ensures
        b > 0 ==> floor_div(a, b) * b <= a < floor_div(a, b) * b + b,
        b < 0 ==> floor_div(a, b) * b >= a > floor_div(a, b) * b + b,
{
    let q = floor_div(a, b);
    if b > 0 {
        lemma_div_rem(a, b);
    } else {
        lemma_div_rem(-a, -b);
        assert(q * (-b) == -(q * b)) by (nonlinear_arith);
    }
}

/// The floor quotient is the only integer that brackets the dividend so.
pub proof fn lemma_floor_div_unique(a: int, b: int, q: int)
    requires
        b != 0,
        b > 0 ==> q * b <= a < q * b + b,
        b < 0 ==> q * b >= a > q * b + b,
    ensures
        floor_div(a, b) == q,
{
    if b > 0 {
        lemma_fundamental_div_mod_converse(a, b, q, a - q * b);
    } else {
        assert(q * (-b) == -(q * b)) by (nonlinear_arith);
        lemma_fundamental_div_mod_converse(-a, -b, q, (-a) - q * (-b));
    }
}

/// A multiple of the divisor has its factor as floor quotient.
pub proof fn lemma_floor_div_of_multiple(k: int, b: int)
    requires
        b != 0,
    ensures
        floor_div(k * b, b) == k,
{
    lemma_floor_div_unique(k * b, b, k);
}

/// A common positive factor of dividend and divisor does not change the
/// floor quotient.
pub proof fn lemma_floor_div_common_factor(a: int, b: int, c: int)
    requires
        b != 0,
        c > 0,
    ensures
        floor_div(a * c, b * c) == floor_div(a, b),
{
    let q = floor_div(a, b);
    lemma_floor_div_bounds(a, b);
    assert(b > 0 ==> b * c > 0) by (nonlinear_arith)
        requires
            c > 0,
    ;
    assert(b < 0 ==> b * c < 0) by (nonlinear_arith)
        requires
            c > 0,
    ;
    if b > 0 {
        assert(q * (b * c) <= a * c < q * (b * c) + b * c) by (nonlinear_arith)
            requires
                q * b <= a < q * b + b,
                c > 0,
        ;
    } else {
        assert(q * (b * c) >= a * c > q * (b * c) + b * c) by (nonlinear_arith)
            requires
                q * b >= a > q * b + b,
                c > 0,
        ;
    }
    lemma_floor_div_unique(a * c, b * c, q);
}

/// Rounding a quantity down to a step never raises it, for a positive step.
pub proof fn lemma_floor_to_step_not_above(x: int, step: int)
    requires
        step > 0,
    ensures
        floor_to_step(x, step) <= x,
        x - floor_to_step(x, step) < step,
        x >= 0 ==> floor_to_step(x, step) >= 0,
{
    lemma_floor_div_bounds(x, step);
    let q = floor_div(x, step);
    if x >= 0 {
        assert(q >= 0) by (nonlinear_arith)
            requires
                x < q * step + step,
                x >= 0,
                step > 0,
        ;
        assert(q * step >= 0) by (nonlinear_arith)
            requires
                q >= 0,
                step > 0,
        ;
    }
}

/// Rounding down to a step twice gives what rounding once gives.
pub proof fn lemma_floor_to_step_idempotent(x: int, step: int)
    ensures
        floor_to_step(floor_to_step(x, step), step) == floor_to_step(x, step),
{
    if step != 0 {
        lemma_floor_div_of_multiple(floor_div(x, step), step);
    }
}


/// The nearest quotient, times the divisor, is off the dividend by at most
/// half the divisor.
pub proof fn lemma_nearest_even_error(a: int, b: int)
    requires
        b != 0,
    ensures
        2 * abs(nearest_even_div(a, b) * b - a) <= abs(b),
{
    let n = if b > 0 {
        a
    } else {
        -a
    };
    let d = abs(b);
    let q = n / d;
    let r = n % d;
    let k = nearest_even_div(a, b);
    lemma_div_rem(n, d);
    assert(k * d - n == (k - q) * d - r) by (nonlinear_arith)
        requires
            n == q * d + r,
    ;
    if k == q {
        assert((k - q) * d == 0) by (nonlinear_arith)
            requires
                k == q,
        ;
    } else {
        assert((k - q) * d == d) by (nonlinear_arith)
            requires
                k == q + 1,
        ;
    }
    if b < 0 {
        assert(k * b == -(k * d)) by (nonlinear_arith)
            requires
                d == -b,
        ;
    }
}

/// A common positive factor of dividend and divisor does not change the
/// nearest quotient.
pub proof fn lemma_nearest_even_common_factor(a: int, b: int, c: int)
    requires
        b != 0,
        c > 0,
    ensures
        nearest_even_div(a * c, b * c) == nearest_even_div(a, b),
{
    let n = if b > 0 {
        a
    } else {
        -a
    };
    let d = abs(b);
    let q = n / d;
    let r = n % d;
    lemma_div_rem(n, d);
    assert(b > 0 ==> b * c > 0) by (nonlinear_arith)
        requires
            c > 0,
    ;
    assert(b < 0 ==> b * c < 0) by (nonlinear_arith)
        requires
            c > 0,
    ;
    let n2 = if b * c > 0 {
        a * c
    } else {
        -(a * c)
    };
    let d2 = abs(b * c);
    assert(n2 == n * c && d2 == d * c) by (nonlinear_arith)
        requires
            n2 == (if b > 0 {
                a * c
            } else {
                -(a * c)
            }),
            d2 == (if b > 0 {
                b * c
            } else {
                -(b * c)
            }),
            n == (if b > 0 {
                a
            } else {
                -a
            }),
            d == (if b > 0 {
                b
            } else {
                -b
            }),
    ;
    assert(n * c == q * (d * c) + r * c && 0 <= r * c < d * c) by (nonlinear_arith)
        requires
            n == q * d + r,
            0 <= r < d,
            c > 0,
    ;
    lemma_fundamental_div_mod_converse(n * c, d * c, q, r * c);
    assert((2 * (r * c) < d * c) == (2 * r < d) && (2 * (r * c) == d * c) == (2 * r == d))
        by (nonlinear_arith)
        requires
            c > 0,
    ;
}

/// Rounding a price to a tick moves it by at most half a tick.
pub proof fn lemma_round_to_step_error(x: int, step: int)
    ensures
        2 * abs(round_to_step(x, step) - x) <= abs(step),
{
    if step != 0 {
        lemma_nearest_even_error(x, step);
    }
}

/// A multiple of the step is its own rounding.
pub proof fn lemma_round_to_step_of_multiple(k: int, step: int)
    ensures
        round_to_step(k * step, step) == k * step,
{
    if step != 0 {
        let n = if step > 0 {
            k * step
        } else {
            -(k * step)
        };
        let d = abs(step);
        assert(n == k * d + 0) by (nonlinear_arith)
            requires
                n == (if step > 0 {
                    k * step
                } else {
                    -(k * step)
                }),
                d == (if step > 0 {
                    step
                } else {
                    -step
                }),
        ;
        lemma_fundamental_div_mod_converse(n, d, k, 0);
    }
}

/// Rounding to a step twice gives what rounding once gives.
pub proof fn lemma_round_to_step_idempotent(x: int, step: int)
    ensures
        round_to_step(round_to_step(x, step), step) == round_to_step(x, step),
{
    if step != 0 {
        lemma_round_to_step_of_multiple(nearest_even_div(x, step), step);
    }
}


/// A multiple of the divisor has its factor as nearest quotient.
pub proof fn lemma_nearest_even_of_multiple(k: int, b: int)
    requires
        b != 0,
    ensures
        nearest_even_div(k * b, b) == k,
{
    let n = if b > 0 {
        k * b
    } else {
        -(k * b)
    };
    let d = abs(b);
    assert(n == k * d + 0) by (nonlinear_arith)
        requires
            n == (if b > 0 {
                k * b
            } else {
                -(k * b)
            }),
            d == (if b > 0 {
                b
            } else {
                -b
            }),
    ;
    lemma_fundamental_div_mod_converse(n, d, k, 0);
}

/// Exactly half way between two neighbouring multiples of a positive step,
/// rounding gives one of the two: the one whose factor is even.
pub proof fn lemma_round_to_step_tie(q: int, step: int)
    requires
        step > 0,
        step % 2 == 0,
    ensures
        round_to_step(q * step + step / 2, step) == (if q % 2 == 0 {
            q * step
        } else {
            q * step + step
        }),
{
    let x = q * step + step / 2;
    lemma_div_rem(step, 2);
    lemma_fundamental_div_mod_converse(x, step, q, step / 2);
    assert((q + 1) * step == q * step + step) by (nonlinear_arith);
}

/// Where the price is not half way, rounding gives the nearer of the two
/// neighbouring multiples of a positive step.
pub proof fn lemma_round_to_step_nearer(x: int, step: int)
    requires
        step > 0,
    ensures
        ({
            let below = floor_to_step(x, step);
            &&& 2 * (x - below) < step ==> round_to_step(x, step) == below
            &&& 2 * (x - below) > step ==> round_to_step(x, step) == below + step
        }),
{
    lemma_div_rem(x, step);
    let q = x / step;
    assert((q + 1) * step == q * step + step) by (nonlinear_arith);
}

} // verus!
