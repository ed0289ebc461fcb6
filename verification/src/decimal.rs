//! Exact decimal numbers: a signed 96-bit mantissa and a scale of at most 28
//! decimal places. Every operation is exact or reports that the exact result
//! cannot be represented; nothing is ever rounded silently.

use crate::rounding::{
    abs, floor_div, lemma_div_rem, lemma_floor_div_common_factor,
    lemma_nearest_even_common_factor, nearest_even_div,
};
use crate::wide::{compare_wide, mantissa_bound, mul_pow10, wide_product, Wide};
use vstd::prelude::*;
use vstd::std_specs::cmp::PartialEqSpecImpl;

verus! {

/// Largest number of decimal places a `Decimal` can carry.
pub const MAX_SCALE: u32 = 28;

/// Ten to the power `n`.
pub open spec fn pow10(n: nat) -> nat
    decreases n,
{
    if n == 0 {
        1
    } else {
        10 * pow10((n - 1) as nat)
    }
}

/// `pow10` is never zero.
pub proof fn lemma_pow10_positive(n: nat)
    ensures
        pow10(n) >= 1,
    decreases n,
{
    if n > 0 {
        lemma_pow10_positive((n - 1) as nat);
    }
}

/// `pow10` turns sums of exponents into products.
pub proof fn lemma_pow10_adds(a: nat, b: nat)
    ensures
        pow10(a + b) == pow10(a) * pow10(b),
    decreases a,
{
    if a == 0 {
        assert(pow10(0 + b) == 1 * pow10(b));
    } else {
        lemma_pow10_adds((a - 1) as nat, b);
        assert(pow10(a + b) == 10 * pow10((a + b - 1) as nat));
        assert(((a - 1) as nat) + b == (a + b - 1) as nat);
        assert(10 * (pow10((a - 1) as nat) * pow10(b)) == (10 * pow10((a - 1) as nat)) * pow10(b))
            by (nonlinear_arith);
    }
}

/// `pow10` grows with its exponent.
pub proof fn lemma_pow10_monotonic(a: nat, b: nat)
    requires
        a <= b,
    ensures
        pow10(a) <= pow10(b),
    decreases b,
{
    if a < b {
        lemma_pow10_monotonic(a, (b - 1) as nat);
    }
}

/// The largest power of ten that an `i128` holds.
pub proof fn lemma_pow10_38()
    ensures
        pow10(38) == 100_000_000_000_000_000_000_000_000_000_000_000_000,
{
    reveal_with_fuel(pow10, 40);
}

/// Ten to the power `n`, for the exponents whose power fits in an `i128`.
pub(crate) fn pow10_i128(n: u32) -> (r: i128)
    requires
        n <= 38,
    ensures
        r == pow10(n as nat),
        1 <= r <= 100_000_000_000_000_000_000_000_000_000_000_000_000,
{
    let mut r: i128 = 1;
    let mut i: u32 = 0;
    while i < n
        invariant
            i <= n <= 38,
            r == pow10(i as nat),
        decreases n - i,
    {
        proof {
            lemma_pow10_monotonic((i + 1) as nat, 38);
            lemma_pow10_38();
        }
        r = r * 10;
        i = i + 1;
    }
    proof {
        lemma_pow10_monotonic(n as nat, 38);
        lemma_pow10_38();
        lemma_pow10_positive(n as nat);
    }
    r
}


/// Largest magnitude of a mantissa.
pub const MAX_MANTISSA: i128 = 79_228_162_514_264_337_593_543_950_335;

/// An exact decimal number `mantissa / 10^scale`.
///
/// The mantissa lies within `-MAX_MANTISSA ..= MAX_MANTISSA` and the scale is
/// at most `MAX_SCALE`. Two values with different scales may denote the same
/// number; comparisons and contracts go by the number, which the view gives
/// as an integer count of units of `10^-28`.
#[derive(Clone, Copy, Debug)]
pub struct Decimal {
    mantissa: i128,
    scale: u32,
}

impl View for Decimal {
    type V = int;

    /// The number in units of `10^-28`.
    open spec fn view(&self) -> int {
        self.spec_mantissa() * pow10((28 - self.spec_scale()) as nat)
    }
}

/// The view of the number one: `10^28`.
pub open spec fn unit() -> int {
    pow10(28) as int
}

/// -1, 0 or 1 as `x` is negative, zero or positive.
pub open spec fn sign_of(x: int) -> int {
    if x < 0 {
        -1
    } else if x == 0 {
        0
    } else {
        1
    }
}

/// `m / 10^s` in units of `10^-56`, the grain fine enough for the product of
/// two decimals.
pub open spec fn wide_units(m: int, s: nat) -> int {
    m * pow10((56 - s) as nat)
}

impl Decimal {
    /// What every value of the type satisfies.
    #[verifier::type_invariant]
    pub closed spec fn wf(self) -> bool {
        self.scale <= MAX_SCALE && -MAX_MANTISSA <= self.mantissa <= MAX_MANTISSA
    }

    /// The mantissa as a mathematical integer.
    pub closed spec fn spec_mantissa(self) -> int {
        self.mantissa as int
    }

    /// The number of decimal places.
    pub closed spec fn spec_scale(self) -> nat {
        self.scale as nat
    }

    /// What `wf` says, in terms of mantissa and scale.
    pub proof fn lemma_wf(self)
        requires
            self.wf(),
        ensures
            self.spec_scale() <= 28,
            -MAX_MANTISSA <= self.spec_mantissa() <= MAX_MANTISSA,
    {
    }

    /// The decimal `mantissa / 10^scale`, for a representable pair.
    pub closed spec fn from_parts(mantissa: int, scale: nat) -> Decimal {
        Decimal { mantissa: mantissa as i128, scale: scale as u32 }
    }

    /// `from_parts` keeps the mantissa and the scale it is given.
    pub proof fn lemma_from_parts(mantissa: int, scale: nat)
        requires
            Self::representable(mantissa, scale),
        ensures
            Self::from_parts(mantissa, scale).wf(),
            Self::from_parts(mantissa, scale).spec_mantissa() == mantissa,
            Self::from_parts(mantissa, scale).spec_scale() == scale,
            Self::from_parts(mantissa, scale)@ == mantissa * pow10((28 - scale) as nat),
    {
    }

    /// A well-formed decimal is made of its mantissa and its scale.
    pub proof fn lemma_parts(self)
        requires
            self.wf(),
        ensures
            self == Self::from_parts(self.spec_mantissa(), self.spec_scale()),
    {
    }

    /// Whether `mantissa / 10^scale` can be held.
    pub open spec fn representable(mantissa: int, scale: nat) -> bool {
        scale <= 28 && -MAX_MANTISSA <= mantissa <= MAX_MANTISSA
    }

    /// `num / 10^scale`, where the scale is within `MAX_SCALE`.
    pub fn new(num: i64, scale: u32) -> (d: Decimal)
        requires
            Self::representable(num as int, scale as nat),
        ensures
            d == Self::from_parts(num as int, scale as nat),
            d.wf(),
            d.spec_mantissa() == num,
            d.spec_scale() == scale,
    {
        Decimal { mantissa: num as i128, scale }
    }

    /// `num / 10^scale` if that can be held, and `None` otherwise.
    pub fn try_new(num: i64, scale: u32) -> (r: Option<Decimal>)
        ensures
            r is Some <==> Self::representable(num as int, scale as nat),
            r matches Some(d) ==> d == Self::from_parts(num as int, scale as nat) && d.wf()
                && d.spec_mantissa() == num && d.spec_scale() == scale,
    {
        if scale <= MAX_SCALE {
            Some(Decimal { mantissa: num as i128, scale })
        } else {
            None
        }
    }

    /// As `try_new`, from a 128-bit mantissa.
    pub fn try_from_i128_with_scale(num: i128, scale: u32) -> (r: Option<Decimal>)
        ensures
            r is Some <==> Self::representable(num as int, scale as nat),
            r matches Some(d) ==> d == Self::from_parts(num as int, scale as nat) && d.wf()
                && d.spec_mantissa() == num && d.spec_scale() == scale,
    {
        if scale <= MAX_SCALE && num >= -MAX_MANTISSA && num <= MAX_MANTISSA {
            Some(Decimal { mantissa: num, scale })
        } else {
            None
        }
    }

    /// The number zero.
    pub fn zero() -> (d: Decimal)
        ensures
            d == Self::from_parts(0, 0),
            d.wf(),
            d.spec_mantissa() == 0,
            d.spec_scale() == 0,
            d@ == 0,
    {
        Decimal { mantissa: 0, scale: 0 }
    }

    /// The number one.
    pub fn one() -> (d: Decimal)
        ensures
            d == Self::from_parts(1, 0),
            d.wf(),
            d.spec_mantissa() == 1,
            d.spec_scale() == 0,
            d@ == unit(),
    {
        Decimal { mantissa: 1, scale: 0 }
    }

    /// The mantissa.
    pub fn mantissa(&self) -> (m: i128)
        ensures
            m == self.spec_mantissa(),
            -MAX_MANTISSA <= m <= MAX_MANTISSA,
            self.wf(),
    {
        proof {
            use_type_invariant(self);
        }
        self.mantissa
    }

    /// The number of decimal places.
    pub fn scale(&self) -> (s: u32)
        ensures
            s == self.spec_scale(),
            s <= MAX_SCALE,
            self.wf(),
    {
        proof {
            use_type_invariant(self);
        }
        self.scale
    }

    /// Whether the number is zero.
    pub fn is_zero(&self) -> (z: bool)
        ensures
            z == (self@ == 0),
    {
        proof {
            lemma_pow10_positive((28 - self.spec_scale()) as nat);
            lemma_sign_of_product(self.spec_mantissa(), pow10((28 - self.spec_scale()) as nat) as int);
        }
        self.mantissa == 0
    }
}

/// A product with a positive factor has the sign of the other factor.
pub proof fn lemma_sign_of_product(x: int, k: int)
    requires
        k > 0,
    ensures
        sign_of(x * k) == sign_of(x),
{
    assert(sign_of(x * k) == sign_of(x)) by (nonlinear_arith)
        requires
            k > 0,
    ;
}


/// Units of `10^-56` can be reached through any scale in between.
pub proof fn lemma_wide_units_through(m: int, s: nat, t: nat)
    requires
        s <= t <= 56,
    ensures
        wide_units(m, s) == (m * pow10((t - s) as nat)) * pow10((56 - t) as nat),
{
    lemma_pow10_adds((t - s) as nat, (56 - t) as nat);
    assert(((t - s) as nat) + ((56 - t) as nat) == (56 - s) as nat);
    let a = pow10((t - s) as nat) as int;
    let b = pow10((56 - t) as nat) as int;
    assert(m * (a * b) == (m * a) * b) by (nonlinear_arith);
}

/// The view of a decimal, seen in units of `10^-56`.
pub proof fn lemma_view_wide(d: Decimal)
    requires
        d.wf(),
    ensures
        wide_units(d.spec_mantissa(), d.spec_scale()) == d@ * unit(),
{
    d.lemma_wf();
    lemma_pow10_adds((28 - d.spec_scale()) as nat, 28);
    assert(((28 - d.spec_scale()) as nat) + 28 == (56 - d.spec_scale()) as nat);
    let m = d.spec_mantissa();
    let a = pow10((28 - d.spec_scale()) as nat) as int;
    let b = pow10(28) as int;
    assert(m * (a * b) == (m * a) * b) by (nonlinear_arith);
}

/// The product of two decimals, in units of `10^-56`.
pub proof fn lemma_product_wide(a: Decimal, b: Decimal)
    requires
        a.wf(),
        b.wf(),
    ensures
        wide_units(a.spec_mantissa() * b.spec_mantissa(), a.spec_scale() + b.spec_scale()) == a@
            * b@,
{
    a.lemma_wf();
    b.lemma_wf();
    let sa = a.spec_scale();
    let sb = b.spec_scale();
    lemma_pow10_adds((28 - sa) as nat, (28 - sb) as nat);
    assert(((28 - sa) as nat) + ((28 - sb) as nat) == (56 - (sa + sb)) as nat);
    let ma = a.spec_mantissa();
    let mb = b.spec_mantissa();
    let pa = pow10((28 - sa) as nat) as int;
    let pb = pow10((28 - sb) as nat) as int;
    assert((ma * mb) * (pa * pb) == (ma * pa) * (mb * pb)) by (nonlinear_arith);
}

/// `m * 10^d`, or `None` where that does not fit in an `i128`.
pub(crate) fn scale_up(m: i128, d: u32) -> (r: Option<i128>)
    ensures
        r matches Some(x) ==> x == m * pow10(d as nat),
        r is None ==> m != 0 && !(i128::MIN <= m * pow10(d as nat) <= i128::MAX),
{
    if m == 0 {
        assert(0 * pow10(d as nat) == 0);
        return Some(0);
    }
    if d > 38 {
        proof {
            lemma_pow10_38();
            lemma_pow10_monotonic(39, d as nat);
            assert(pow10(39) == 10 * pow10(38));
            let p = pow10(d as nat) as int;
            assert(m * p >= p || m * p <= -p) by (nonlinear_arith)
                requires
                    m != 0,
                    p > 0,
            ;
        }
        return None;
    }
    let p: i128 = pow10_i128(d);
    m.checked_mul(p)
}

/// The sign of `a - b`.
fn sign_of_difference(a: i128, b: i128) -> (r: i8)
    ensures
        r == sign_of(a - b),
{
    if a < b {
        -1
    } else if a == b {
        0
    } else {
        1
    }
}

/// The sign of `m1 / 10^s1 - m2 / 10^s2`.
///
/// Total: where bringing the two to one scale would overflow, the operand
/// that overflows decides by its own sign.
pub(crate) fn compare_scaled(m1: i128, s1: u32, m2: i128, s2: u32) -> (r: i8)
    requires
        s1 <= 56,
        s2 <= 56,
    ensures
        r == sign_of(wide_units(m1 as int, s1 as nat) - wide_units(m2 as int, s2 as nat)),
{
    if s1 <= s2 {
        let d: u32 = s2 - s1;
        let ghost k = pow10((56 - s2) as nat) as int;
        proof {
            lemma_wide_units_through(m1 as int, s1 as nat, s2 as nat);
            lemma_wide_units_through(m2 as int, s2 as nat, s2 as nat);
            lemma_pow10_positive((56 - s2) as nat);
            lemma_pow10_positive(d as nat);
            assert(pow10(0) == 1);
            assert(m2 * 1 == m2);
            let x = m1 * pow10(d as nat);
            assert(x * k - m2 * k == (x - m2) * k) by (nonlinear_arith);
            lemma_sign_of_product(x - m2, k);
            lemma_sign_of_product(m1 as int, pow10(d as nat) as int);
        }
        match scale_up(m1, d) {
            Some(x) => sign_of_difference(x, m2),
            None => if m1 > 0 {
                1
            } else {
                -1
            },
        }
    } else {
        let d: u32 = s1 - s2;
        let ghost k = pow10((56 - s1) as nat) as int;
        proof {
            lemma_wide_units_through(m2 as int, s2 as nat, s1 as nat);
            lemma_wide_units_through(m1 as int, s1 as nat, s1 as nat);
            lemma_pow10_positive((56 - s1) as nat);
            lemma_pow10_positive(d as nat);
            assert(pow10(0) == 1);
            assert(m1 * 1 == m1);
            let x = m2 * pow10(d as nat);
            assert(m1 * k - x * k == (m1 - x) * k) by (nonlinear_arith);
            lemma_sign_of_product(m1 - x, k);
            lemma_sign_of_product(m2 as int, pow10(d as nat) as int);
        }
        match scale_up(m2, d) {
            Some(x) => sign_of_difference(m1, x),
            None => if m2 > 0 {
                -1
            } else {
                1
            },
        }
    }
}

impl Decimal {
    /// The sign of `self - other`: -1, 0 or 1.
    pub fn compare(&self, other: &Decimal) -> (r: i8)
        ensures
            r == sign_of(self@ - other@),
    {
        proof {
            use_type_invariant(self);
            use_type_invariant(other);
            lemma_view_wide(*self);
            lemma_view_wide(*other);
            lemma_pow10_positive(28);
            assert(self@ * unit() - other@ * unit() == (self@ - other@) * unit())
                by (nonlinear_arith);
            lemma_sign_of_product(self@ - other@, unit());
        }
        compare_scaled(self.mantissa, self.scale, other.mantissa, other.scale)
    }

    /// Whether `self` is the smaller number.
    pub fn lt(&self, other: &Decimal) -> (r: bool)
        ensures
            r == (self@ < other@),
    {
        self.compare(other) < 0
    }

    /// Whether `self` is at most `other`.
    pub fn le(&self, other: &Decimal) -> (r: bool)
        ensures
            r == (self@ <= other@),
    {
        self.compare(other) <= 0
    }

    /// Whether `self` is the larger number.
    pub fn gt(&self, other: &Decimal) -> (r: bool)
        ensures
            r == (self@ > other@),
    {
        self.compare(other) > 0
    }

    /// Whether `self` is at least `other`.
    pub fn ge(&self, other: &Decimal) -> (r: bool)
        ensures
            r == (self@ >= other@),
    {
        self.compare(other) >= 0
    }

    /// Whether the two denote the same number, whatever their scales.
    pub fn same(&self, other: &Decimal) -> (r: bool)
        ensures
            r == (self@ == other@),
    {
        self.compare(other) == 0
    }
}


/// Whether `x` and `-x` both fit in an `i128`.
pub open spec fn fits_i128(x: int) -> bool {
    -i128::MAX <= x <= i128::MAX
}

/// The numerator of `(nm / 10^ns) / (dm / 10^ds)` once both are written at
/// the larger of the two scales.
pub open spec fn aligned_num(nm: int, ns: nat, ds: nat) -> int {
    nm * pow10(
        if ds > ns {
            (ds - ns) as nat
        } else {
            0
        },
    )
}

/// The denominator of `(nm / 10^ns) / (dm / 10^ds)` once both are written
/// at the larger of the two scales.
pub open spec fn aligned_den(dm: int, ns: nat, ds: nat) -> int {
    dm * pow10(
        if ns > ds {
            (ns - ds) as nat
        } else {
            0
        },
    )
}

/// Whether the quotient of two scaled integers can be taken in 128 bits:
/// both operands fit once they are written at one scale.
pub open spec fn ratio_fits(nm: int, ns: nat, dm: int, ds: nat) -> bool {
    fits_i128(aligned_num(nm, ns, ds)) && fits_i128(aligned_den(dm, ns, ds))
}

/// What does not fit in 128 bits does not fit after scaling up either.
pub proof fn lemma_unfit_stays_unfit(m: int, places: nat)
    requires
        !fits_i128(m),
    ensures
        !fits_i128(m * pow10(places)),
{
    lemma_pow10_positive(places);
    let p = pow10(places) as int;
    assert(m > i128::MAX ==> m * p > i128::MAX) by (nonlinear_arith)
        requires
            p >= 1,
    ;
    assert(m < -i128::MAX ==> m * p < -i128::MAX) by (nonlinear_arith)
        requires
            p >= 1,
    ;
}

/// Aligned operands are the operands in units of `10^-56`, up to one common
/// positive factor.
pub proof fn lemma_aligned_wide(nm: int, ns: nat, dm: int, ds: nat)
    requires
        ns <= 56,
        ds <= 56,
    ensures
        ({
            let t = if ns >= ds {
                ns
            } else {
                ds
            };
            &&& pow10((56 - t) as nat) > 0
            &&& wide_units(nm, ns) == aligned_num(nm, ns, ds) * pow10((56 - t) as nat)
            &&& wide_units(dm, ds) == aligned_den(dm, ns, ds) * pow10((56 - t) as nat)
        }),
{
    let t = if ns >= ds {
        ns
    } else {
        ds
    };
    lemma_pow10_positive((56 - t) as nat);
    lemma_wide_units_through(nm, ns, t);
    lemma_wide_units_through(dm, ds, t);
}

/// `n` and `d` written at one scale, where both then fit.
fn align(nm: i128, ns: u32, dm: i128, ds: u32) -> (r: Option<(i128, i128)>)
    requires
        ns <= 56,
        ds <= 56,
    ensures
        r is Some <==> ratio_fits(nm as int, ns as nat, dm as int, ds as nat),
        r matches Some((n, d)) ==> n == aligned_num(nm as int, ns as nat, ds as nat) && d
            == aligned_den(dm as int, ns as nat, ds as nat),
{
    let up_n: u32 = if ds > ns {
        ds - ns
    } else {
        0
    };
    let up_d: u32 = if ns > ds {
        ns - ds
    } else {
        0
    };
    match (scale_up(nm, up_n), scale_up(dm, up_d)) {
        (Some(n), Some(d)) => {
            if n == i128::MIN || d == i128::MIN {
                None
            } else {
                Some((n, d))
            }
        },
        _ => None,
    }
}

/// The floor of `n / d`.
fn floor_quotient(n: i128, d: i128) -> (q: i128)
    requires
        d != 0,
        fits_i128(n as int),
        fits_i128(d as int),
    ensures
        q == floor_div(n as int, d as int),
        fits_i128(q as int),
{
    let (n1, d1): (i128, i128) = if d > 0 {
        (n, d)
    } else {
        (-n, -d)
    };
    proof {
        lemma_div_rem(n1 as int, d1 as int);
        let q = (n1 as int) / (d1 as int);
        assert(-i128::MAX <= q <= i128::MAX) by (nonlinear_arith)
            requires
                n1 == q * d1 + (n1 as int) % (d1 as int),
                0 <= (n1 as int) % (d1 as int) < d1,
                d1 >= 1,
                -i128::MAX <= n1 <= i128::MAX,
        ;
    }
    match n1.checked_div_euclid(d1) {
        Some(q) => q,
        None => 0,
    }
}

/// The integer nearest to `n / d`, ties to even.
fn nearest_even_quotient(n: i128, d: i128) -> (k: i128)
    requires
        d != 0,
        fits_i128(n as int),
        fits_i128(d as int),
    ensures
        k == nearest_even_div(n as int, d as int),
        fits_i128(k as int),
{
    let (n1, d1): (i128, i128) = if d > 0 {
        (n, d)
    } else {
        (-n, -d)
    };
    assert(d1 == abs(d as int));
    proof {
        lemma_div_rem(n1 as int, d1 as int);
        let q = (n1 as int) / (d1 as int);
        let r = (n1 as int) % (d1 as int);
        assert(-i128::MAX <= q <= i128::MAX) by (nonlinear_arith)
            requires
                n1 == q * d1 + r,
                0 <= r < d1,
                d1 >= 1,
                -i128::MAX <= n1 <= i128::MAX,
        ;
        assert(2 * r >= d1 ==> q + 1 <= i128::MAX) by (nonlinear_arith)
            requires
                n1 == q * d1 + r,
                0 <= r < d1,
                d1 >= 1,
                -i128::MAX <= n1 <= i128::MAX,
        ;
    }
    let q: i128 = match n1.checked_div_euclid(d1) {
        Some(q) => q,
        None => 0,
    };
    let r: i128 = match n1.checked_rem_euclid(d1) {
        Some(r) => r,
        None => 0,
    };
    let rest: i128 = d1 - r;
    if r < rest || (r == rest && q % 2 == 0) {
        q
    } else {
        q + 1
    }
}

/// The floor of `(nm / 10^ns) / (dm / 10^ds)`, where the two operands fit
/// in 128 bits at one scale, and `None` where they do not.
pub(crate) fn floor_ratio(nm: i128, ns: u32, dm: i128, ds: u32) -> (r: Option<i128>)
    requires
        ns <= 56,
        ds <= 56,
        dm != 0,
    ensures
        r is Some <==> ratio_fits(nm as int, ns as nat, dm as int, ds as nat),
        r matches Some(k) ==> k == floor_div(
            wide_units(nm as int, ns as nat),
            wide_units(dm as int, ds as nat),
        ) && fits_i128(k as int),
{
    proof {
        lemma_aligned_wide(nm as int, ns as nat, dm as int, ds as nat);
        let t = if ns >= ds {
            ns as nat
        } else {
            ds as nat
        };
        lemma_pow10_positive(
            if ns > ds {
                (ns - ds) as nat
            } else {
                0
            },
        );
        let p = pow10(
            if ns > ds {
                (ns - ds) as nat
            } else {
                0
            },
        ) as int;
        assert(dm * p != 0) by (nonlinear_arith)
            requires
                dm != 0,
                p > 0,
        ;
        lemma_floor_div_common_factor(
            aligned_num(nm as int, ns as nat, ds as nat),
            aligned_den(dm as int, ns as nat, ds as nat),
            pow10((56 - t) as nat) as int,
        );
    }
    match align(nm, ns, dm, ds) {
        Some((n, d)) => Some(floor_quotient(n, d)),
        None => None,
    }
}

/// The integer nearest to `(nm / 10^ns) / (dm / 10^ds)`, ties to even,
/// where the two operands fit in 128 bits at one scale, and `None` where
/// they do not.
pub(crate) fn nearest_even_ratio(nm: i128, ns: u32, dm: i128, ds: u32) -> (r: Option<i128>)
    requires
        ns <= 56,
        ds <= 56,
        dm != 0,
    ensures
        r is Some <==> ratio_fits(nm as int, ns as nat, dm as int, ds as nat),
        r matches Some(k) ==> k == nearest_even_div(
            wide_units(nm as int, ns as nat),
            wide_units(dm as int, ds as nat),
        ) && fits_i128(k as int),
{
    proof {
        lemma_aligned_wide(nm as int, ns as nat, dm as int, ds as nat);
        let t = if ns >= ds {
            ns as nat
        } else {
            ds as nat
        };
        lemma_pow10_positive(
            if ns > ds {
                (ns - ds) as nat
            } else {
                0
            },
        );
        let p = pow10(
            if ns > ds {
                (ns - ds) as nat
            } else {
                0
            },
        ) as int;
        assert(dm * p != 0) by (nonlinear_arith)
            requires
                dm != 0,
                p > 0,
        ;
        lemma_nearest_even_common_factor(
            aligned_num(nm as int, ns as nat, ds as nat),
            aligned_den(dm as int, ns as nat, ds as nat),
            pow10((56 - t) as nat) as int,
        );
    }
    match align(nm, ns, dm, ds) {
        Some((n, d)) => Some(nearest_even_quotient(n, d)),
        None => None,
    }
}


impl Decimal {
    /// The larger of the two scales: the scale of an exact sum.
    pub open spec fn common_scale(self, other: Decimal) -> nat {
        if self.spec_scale() >= other.spec_scale() {
            self.spec_scale()
        } else {
            other.spec_scale()
        }
    }

    /// The mantissa that the number has when written with `t` decimal
    /// places, for `t` at least the scale.
    pub open spec fn mantissa_at(self, t: nat) -> int {
        self.spec_mantissa() * pow10((t - self.spec_scale()) as nat)
    }

    /// Writing a number with more decimal places does not change it.
    pub proof fn lemma_mantissa_at(self, t: nat)
        requires
            self.wf(),
            self.spec_scale() <= t <= 28,
        ensures
            self@ == self.mantissa_at(t) * pow10((28 - t) as nat),
    {
        self.lemma_wf();
        lemma_pow10_adds((t - self.spec_scale()) as nat, (28 - t) as nat);
        assert(((t - self.spec_scale()) as nat) + ((28 - t) as nat) == (28 - self.spec_scale()) as nat);
        let m = self.spec_mantissa();
        let a = pow10((t - self.spec_scale()) as nat) as int;
        let b = pow10((28 - t) as nat) as int;
        assert(m * (a * b) == (m * a) * b) by (nonlinear_arith);
    }

    /// The negated number.
    pub fn neg(&self) -> (d: Decimal)
        ensures
            d.wf(),
            d@ == -self@,
            d.spec_mantissa() == -self.spec_mantissa(),
            d.spec_scale() == self.spec_scale(),
    {
        proof {
            use_type_invariant(self);
            let m = self.spec_mantissa();
            let p = pow10((28 - self.spec_scale()) as nat) as int;
            assert((-m) * p == -(m * p)) by (nonlinear_arith);
        }
        Decimal { mantissa: -self.mantissa, scale: self.scale }
    }

    /// The exact sum at the larger of the two scales, or `None` where its
    /// mantissa does not fit.
    pub fn checked_add(&self, other: &Decimal) -> (r: Option<Decimal>)
        ensures
            r is Some <==> Self::representable(
                self.mantissa_at(self.common_scale(*other)) + other.mantissa_at(
                    self.common_scale(*other),
                ),
                self.common_scale(*other),
            ),
            r matches Some(d) ==> {
                &&& d.wf()
                &&& d@ == self@ + other@
                &&& d.spec_scale() == self.common_scale(*other)
                &&& d.spec_mantissa() == self.mantissa_at(d.spec_scale()) + other.mantissa_at(
                    d.spec_scale(),
                )
            },
    {
        proof {
            use_type_invariant(self);
            use_type_invariant(other);
        }
        let t: u32 = if self.scale >= other.scale {
            self.scale
        } else {
            other.scale
        };
        let ghost x = self.mantissa_at(t as nat);
        let ghost y = other.mantissa_at(t as nat);
        proof {
            self.lemma_mantissa_at(t as nat);
            other.lemma_mantissa_at(t as nat);
            let k = pow10((28 - t) as nat) as int;
            assert((x + y) * k == x * k + y * k) by (nonlinear_arith);
            assert(pow10(0) == 1);
        }
        proof {
            let bm = other.spec_mantissa();
            let am = self.spec_mantissa();
            assert(bm * 1 == bm) by (nonlinear_arith);
            assert(am * 1 == am) by (nonlinear_arith);
            if self.spec_scale() >= other.spec_scale() {
                assert(x == am);
            } else {
                assert(y == bm);
            }
        }
        match (scale_up(self.mantissa, t - self.scale), scale_up(
            other.mantissa,
            t - other.scale,
        )) {
            (Some(a), Some(b)) => match a.checked_add(b) {
                Some(sum) => Decimal::try_from_i128_with_scale(sum, t),
                None => None,
            },
            _ => None,
        }
    }

    /// The exact difference at the larger of the two scales, or `None` where
    /// its mantissa does not fit.
    pub fn checked_sub(&self, other: &Decimal) -> (r: Option<Decimal>)
        ensures
            r is Some <==> Self::representable(
                self.mantissa_at(self.common_scale(*other)) - other.mantissa_at(
                    self.common_scale(*other),
                ),
                self.common_scale(*other),
            ),
            r matches Some(d) ==> {
                &&& d.wf()
                &&& d@ == self@ - other@
                &&& d.spec_scale() == self.common_scale(*other)
                &&& d.spec_mantissa() == self.mantissa_at(d.spec_scale()) - other.mantissa_at(
                    d.spec_scale(),
                )
            },
    {
        let minus: Decimal = other.neg();
        proof {
            let t = self.common_scale(*other);
            let m = other.spec_mantissa();
            let p = pow10((t - other.spec_scale()) as nat) as int;
            assert((-m) * p == -(m * p)) by (nonlinear_arith);
        }
        self.checked_add(&minus)
    }

    /// The exact product, whose scale is the sum of the two scales, or
    /// `None` where that scale is over `MAX_SCALE` or the mantissa does not
    /// fit.
    pub fn checked_mul(&self, other: &Decimal) -> (r: Option<Decimal>)
        ensures
            r is Some <==> Self::representable(
                self.spec_mantissa() * other.spec_mantissa(),
                self.spec_scale() + other.spec_scale(),
            ),
            r matches Some(d) ==> {
                &&& d == Self::from_parts(
                    self.spec_mantissa() * other.spec_mantissa(),
                    self.spec_scale() + other.spec_scale(),
                )
                &&& d.wf()
                &&& d@ * unit() == self@ * other@
                &&& d.spec_scale() == self.spec_scale() + other.spec_scale()
                &&& d.spec_mantissa() == self.spec_mantissa() * other.spec_mantissa()
            },
    {
        proof {
            use_type_invariant(self);
            use_type_invariant(other);
        }
        let s: u32 = self.scale + other.scale;
        match mantissa_product(self, other) {
            Some(m) => {
                let r = Decimal::try_from_i128_with_scale(m, s);
                proof {
                    if let Some(d) = r {
                        lemma_product_wide(*self, *other);
                        lemma_view_wide(d);
                    }
                }
                r
            },
            None => None,
        }
    }
}

/// The product of the two mantissas, where it and its negative fit in 128
/// bits.
pub(crate) fn mantissa_product(a: &Decimal, b: &Decimal) -> (r: Option<i128>)
    ensures
        r matches Some(m) ==> m == a.spec_mantissa() * b.spec_mantissa() && fits_i128(m as int),
        r is None ==> !fits_i128(a.spec_mantissa() * b.spec_mantissa()),
{
    let x: i128 = a.mantissa();
    let y: i128 = b.mantissa();
    match x.checked_mul(y) {
        Some(m) => if m == i128::MIN {
            None
        } else {
            Some(m)
        },
        None => None,
    }
}


impl Decimal {
    /// Whether the number half way between `self` and `other` can be held:
    /// at the larger of the two scales where the sum of the mantissas there
    /// is even, else with one more decimal place.
    pub open spec fn midpoint_fits(self, other: Decimal) -> bool {
        let t = self.common_scale(other);
        let sum = self.mantissa_at(t) + other.mantissa_at(t);
        if sum % 2 == 0 {
            Self::representable(sum / 2, t)
        } else {
            Self::representable(5 * sum, t + 1)
        }
    }

    /// The number half way between `self` and `other`, as it is written
    /// where it can be held.
    pub open spec fn midpoint_of(self, other: Decimal) -> Decimal {
        let t = self.common_scale(other);
        let sum = self.mantissa_at(t) + other.mantissa_at(t);
        if sum % 2 == 0 {
            Self::from_parts(sum / 2, t)
        } else {
            Self::from_parts(5 * sum, t + 1)
        }
    }

    /// The number half way between `self` and `other`, exactly, or `None`
    /// where it cannot be held.
    pub fn midpoint(&self, other: &Decimal) -> (r: Option<Decimal>)
        ensures
            r is Some <==> self.midpoint_fits(*other),
            r matches Some(d) ==> 2 * d@ == self@ + other@ && d == self.midpoint_of(*other),
    {
        proof {
            use_type_invariant(self);
            use_type_invariant(other);
        }
        let t: u32 = if self.scale >= other.scale {
            self.scale
        } else {
            other.scale
        };
        let ghost x = self.mantissa_at(t as nat);
        let ghost y = other.mantissa_at(t as nat);
        proof {
            self.lemma_mantissa_at(t as nat);
            other.lemma_mantissa_at(t as nat);
            let k = pow10((28 - t) as nat) as int;
            assert((x + y) * k == x * k + y * k) by (nonlinear_arith);
            assert(pow10(0) == 1);
            let bm = other.spec_mantissa();
            let am = self.spec_mantissa();
            assert(bm * 1 == bm) by (nonlinear_arith);
            assert(am * 1 == am) by (nonlinear_arith);
            if self.spec_scale() >= other.spec_scale() {
                assert(x == am);
            } else {
                assert(y == bm);
            }
            lemma_div_rem(x + y, 2);
        }
        let a: i128 = match scale_up(self.mantissa, t - self.scale) {
            Some(a) => a,
            None => {
                return None;
            },
        };
        let b: i128 = match scale_up(other.mantissa, t - other.scale) {
            Some(b) => b,
            None => {
                return None;
            },
        };
        let sum: i128 = match a.checked_add(b) {
            Some(sum) => sum,
            None => {
                return None;
            },
        };
        let rem: i128 = match sum.checked_rem_euclid(2) {
            Some(rem) => rem,
            None => 0,
        };
        if rem == 0 {
            let half: i128 = match sum.checked_div_euclid(2) {
                Some(half) => half,
                None => 0,
            };
            let r = Decimal::try_from_i128_with_scale(half, t);
            proof {
                if let Some(d) = r {
                    let k = pow10((28 - t) as nat) as int;
                    assert(2 * (half * k) == (2 * half) * k) by (nonlinear_arith);
                }
            }
            r
        } else {
            match sum.checked_mul(5) {
                Some(m) => {
                    let r = Decimal::try_from_i128_with_scale(m, t + 1);
                    proof {
                        if let Some(d) = r {
                            let k1 = pow10((28 - (t + 1)) as nat) as int;
                            let k = pow10((28 - t) as nat) as int;
                            assert(k == 10 * k1);
                            assert(2 * ((5 * sum) * k1) == sum * (10 * k1)) by (nonlinear_arith);
                        }
                    }
                    r
                },
                None => None,
            }
        }
    }
}

impl PartialEq for Decimal {
    /// Equality of the numbers: `1.0` equals `1.00`.
    fn eq(&self, other: &Decimal) -> (r: bool) {
        self.same(other)
    }
}

impl PartialEqSpecImpl for Decimal {
    open spec fn obeys_eq_spec() -> bool {
        true
    }

    open spec fn eq_spec(&self, other: &Decimal) -> bool {
        self@ == other@
    }
}


/// The sign of a product from the signs of its factors, and its magnitude
/// from theirs.
proof fn lemma_sign_magnitude(x: int, y: int)
    ensures
        sign_of(x * y) == (if x == 0 || y == 0 {
            0int
        } else if (x > 0) == (y > 0) {
            1int
        } else {
            -1int
        }),
        sign_of(x * y) == 1 ==> x * y == abs(x) * abs(y),
        sign_of(x * y) == -1 ==> x * y == -(abs(x) * abs(y)),
        sign_of(x * y) != 0 ==> abs(x) * abs(y) > 0,
{
    if x == 0 || y == 0 {
        assert(x * y == 0) by (nonlinear_arith)
            requires
                x == 0 || y == 0,
        ;
    } else if x > 0 && y > 0 {
        assert(x * y > 0) by (nonlinear_arith)
            requires
                x > 0,
                y > 0,
        ;
    } else if x < 0 && y < 0 {
        assert(x * y > 0 && x * y == (-x) * (-y)) by (nonlinear_arith)
            requires
                x < 0,
                y < 0,
        ;
    } else if x > 0 && y < 0 {
        assert(x * y < 0 && x * y == -(x * (-y)) && x * (-y) > 0) by (nonlinear_arith)
            requires
                x > 0,
                y < 0,
        ;
    } else {
        assert(x * y < 0 && x * y == -((-x) * y) && (-x) * y > 0) by (nonlinear_arith)
            requires
                x < 0,
                y > 0,
        ;
    }
}

/// The magnitude of a mantissa.
fn magnitude(m: i128) -> (r: u128)
    requires
        -MAX_MANTISSA <= m <= MAX_MANTISSA,
    ensures
        r == abs(m as int),
        r <= mantissa_bound(),
{
    if m < 0 {
        (-m) as u128
    } else {
        m as u128
    }
}

/// The sign of the product of two mantissas: -1, 0 or 1.
fn product_sign(x: i128, y: i128) -> (r: i8)
    ensures
        r == sign_of(x * y),
{
    proof {
        lemma_sign_magnitude(x as int, y as int);
    }
    if x == 0 || y == 0 {
        0
    } else if (x > 0) == (y > 0) {
        1
    } else {
        -1
    }
}

/// The sign of `a * b - c * d`. Total: the products are taken in 384 bits
/// and brought to one scale there, so nothing can overflow.
pub fn compare_products(a: &Decimal, b: &Decimal, c: &Decimal, d: &Decimal) -> (r: i8)
    ensures
        r == sign_of(a@ * b@ - c@ * d@),
{
    let s1: u32 = a.scale() + b.scale();
    let s2: u32 = c.scale() + d.scale();
    let am: i128 = a.mantissa();
    let bm: i128 = b.mantissa();
    let cm: i128 = c.mantissa();
    let dm: i128 = d.mantissa();
    let sign1: i8 = product_sign(am, bm);
    let sign2: i8 = product_sign(cm, dm);
    let ghost t: nat = if s1 <= s2 {
        s2 as nat
    } else {
        s1 as nat
    };
    let ghost p1 = am * bm;
    let ghost p2 = cm * dm;
    let ghost e1 = pow10((t - s1) as nat) as int;
    let ghost e2 = pow10((t - s2) as nat) as int;
    let ghost k = pow10((56 - t) as nat) as int;
    proof {
        lemma_product_wide(*a, *b);
        lemma_product_wide(*c, *d);
        lemma_wide_units_through(p1, s1 as nat, t);
        lemma_wide_units_through(p2, s2 as nat, t);
        lemma_pow10_positive((56 - t) as nat);
        lemma_pow10_positive((t - s1) as nat);
        lemma_pow10_positive((t - s2) as nat);
        lemma_sign_magnitude(am as int, bm as int);
        lemma_sign_magnitude(cm as int, dm as int);
        assert((p1 * e1) * k - (p2 * e2) * k == (p1 * e1 - p2 * e2) * k) by (nonlinear_arith);
        lemma_sign_of_product(p1 * e1 - p2 * e2, k);
        lemma_sign_of_product(p1, e1);
        lemma_sign_of_product(p2, e2);
    }
    if sign1 != sign2 {
        return if sign1 < sign2 {
            -1
        } else {
            1
        };
    }
    if sign1 == 0 {
        return 0;
    }
    let w1: Wide = wide_product(magnitude(am), magnitude(bm));
    let w2: Wide = wide_product(magnitude(cm), magnitude(dm));
    let v1: Wide = if s1 <= s2 {
        mul_pow10(w1, s2 - s1)
    } else {
        w1
    };
    let v2: Wide = if s1 <= s2 {
        w2
    } else {
        mul_pow10(w2, s1 - s2)
    };
    proof {
        assert(pow10(0) == 1);
        let m1 = abs(am as int) * abs(bm as int);
        let m2 = abs(cm as int) * abs(dm as int);
        assert(v1.value() == m1 * e1) by (nonlinear_arith)
            requires
                v1.value() == (if s1 <= s2 {
                    m1 * e1
                } else {
                    m1
                }),
                s1 > s2 ==> e1 == 1,
        ;
        assert(v2.value() == m2 * e2) by (nonlinear_arith)
            requires
                v2.value() == (if s1 <= s2 {
                    m2
                } else {
                    m2 * e2
                }),
                s1 <= s2 ==> e2 == 1,
        ;
        if sign1 == 1 {
            assert(p1 * e1 == v1.value() && p2 * e2 == v2.value());
        } else {
            assert(p1 * e1 == -(m1 * e1)) by (nonlinear_arith)
                requires
                    p1 == -m1,
            ;
            assert(p2 * e2 == -(m2 * e2)) by (nonlinear_arith)
                requires
                    p2 == -m2,
            ;
        }
    }
    let order: i8 = compare_wide(&v1, &v2);
    if sign1 > 0 {
        order
    } else {
        -order
    }
}

impl Decimal {
    /// Whether the number is above zero.
    pub fn is_positive(&self) -> (r: bool)
        ensures
            r == (self@ > 0),
    {
        let zero: Decimal = Decimal::zero();
        self.gt(&zero)
    }

    /// Whether `1 - self` can be held at the scale of `self`.
    pub open spec fn complement_fits(self) -> bool {
        Self::representable(pow10(self.spec_scale()) - self.spec_mantissa(), self.spec_scale())
    }

    /// Whether `1 + self` can be held at the scale of `self`.
    pub open spec fn successor_fits(self) -> bool {
        Self::representable(pow10(self.spec_scale()) + self.spec_mantissa(), self.spec_scale())
    }

    /// `1 - self`, exactly, or `None` where its mantissa does not fit.
    pub fn one_minus(&self) -> (r: Option<Decimal>)
        ensures
            r is Some <==> self.complement_fits(),
            r matches Some(d) ==> {
                &&& d@ == unit() - self@
                &&& d.spec_scale() == self.spec_scale()
                &&& d.spec_mantissa() == pow10(self.spec_scale()) - self.spec_mantissa()
            },
    {
        let one: Decimal = Decimal::one();
        proof {
            use_type_invariant(self);
            let p = pow10(self.spec_scale()) as int;
            let q = pow10(0) as int;
            assert(1 * p == p) by (nonlinear_arith);
            assert(self.spec_mantissa() * q == self.spec_mantissa()) by (nonlinear_arith)
                requires
                    q == 1,
            ;
        }
        one.checked_sub(self)
    }

    /// `1 + self`, exactly, or `None` where its mantissa does not fit.
    pub fn one_plus(&self) -> (r: Option<Decimal>)
        ensures
            r is Some <==> self.successor_fits(),
            r matches Some(d) ==> {
                &&& d@ == unit() + self@
                &&& d.spec_scale() == self.spec_scale()
                &&& d.spec_mantissa() == pow10(self.spec_scale()) + self.spec_mantissa()
            },
    {
        let one: Decimal = Decimal::one();
        proof {
            use_type_invariant(self);
            let p = pow10(self.spec_scale()) as int;
            let q = pow10(0) as int;
            assert(1 * p == p) by (nonlinear_arith);
            assert(self.spec_mantissa() * q == self.spec_mantissa()) by (nonlinear_arith)
                requires
                    q == 1,
            ;
        }
        one.checked_add(self)
    }
}

} // verus!
