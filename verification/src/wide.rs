//! Unsigned integers of 384 bits, just enough to compare two products of
//! decimals exactly once they are brought to one scale.

use crate::decimal::{lemma_pow10_adds, lemma_pow10_monotonic, lemma_pow10_positive, pow10};
use vstd::prelude::*;

verus! {

/// Two to the power 64: the base of the limbs.
pub open spec fn base() -> int {
    0x1_0000_0000_0000_0000
}

/// Two to the power 192: above every product of two mantissas.
pub open spec fn product_bound() -> int {
    0x1_0000_0000_0000_0000_0000_0000_0000_0000_0000_0000_0000_0000int
}

/// Two to the power 384: above every number of six limbs.
pub open spec fn limbs_bound() -> int {
    0x1_0000_0000_0000_0000_0000_0000_0000_0000_0000_0000_0000_0000_0000_0000_0000_0000_0000_0000_0000_0000_0000_0000_0000_0000int
}

/// Six limbs of 64 bits, least significant first.
#[derive(Clone, Copy, Debug)]
pub struct Wide {
    pub l0: u64,
    pub l1: u64,
    pub l2: u64,
    pub l3: u64,
    pub l4: u64,
    pub l5: u64,
}

impl Wide {
    /// The number that the limbs make.
    pub open spec fn value(self) -> int {
        self.l0 + base() * (self.l1 + base() * (self.l2 + base() * (self.l3 + base() * (self.l4
            + base() * self.l5))))
    }

    /// The number that the limbs make with one more limb on top.
    pub open spec fn value_with(self, top: int) -> int {
        self.l0 + base() * (self.l1 + base() * (self.l2 + base() * (self.l3 + base() * (self.l4
            + base() * (self.l5 + base() * top)))))
    }
}

/// Low and high half of a number of 128 bits.
fn split(t: u128) -> (r: (u64, u64))
    ensures
        t == r.0 + base() * r.1,
{
    ((t % 0x1_0000_0000_0000_0000) as u64, (t / 0x1_0000_0000_0000_0000) as u64)
}

/// One limb times a small factor, plus a carry.
fn limb_step(limb: u64, factor: u64, carry: u64) -> (r: (u64, u64))
    ensures
        limb * factor + carry == r.0 + base() * r.1,
{
    assert(limb * factor + carry <= 0xffff_ffff_ffff_ffff_ffff_ffff_ffff_ffff) by (nonlinear_arith)
        requires
            limb <= 0xffff_ffff_ffff_ffff,
            factor <= 0xffff_ffff_ffff_ffff,
            carry <= 0xffff_ffff_ffff_ffff,
    ;
    let t: u128 = (limb as u128) * (factor as u128) + (carry as u128);
    split(t)
}

/// `(x + b * y) * f` written out.
proof fn lemma_scale_step(x: int, b: int, y: int, f: int)
    ensures
        (x + b * y) * f == x * f + b * (y * f),
{
    assert((x + b * y) * f == x * f + b * (y * f)) by (nonlinear_arith);
}

/// One step of carrying: if the limbs above make `above + carry_in` and
/// this limb satisfies `product + carry_out == n + b * carry_in`, the limbs
/// from here up make `product + b * above + carry_out`.
proof fn lemma_carry_step(
    n: int,
    b: int,
    upper: int,
    above: int,
    carry_in: int,
    product: int,
    carry_out: int,
)
    requires
        upper == above + carry_in,
        product + carry_out == n + b * carry_in,
    ensures
        n + b * upper == product + b * above + carry_out,
{
    assert(b * (above + carry_in) == b * above + b * carry_in) by (nonlinear_arith);
}

/// The number times a small factor, with the limb that runs over the top.
pub(crate) fn mul_small(w: Wide, factor: u64) -> (r: (Wide, u64))
    ensures
        r.0.value_with(r.1 as int) == w.value() * factor,
{
    let (n0, c0) = limb_step(w.l0, factor, 0);
    let (n1, c1) = limb_step(w.l1, factor, c0);
    let (n2, c2) = limb_step(w.l2, factor, c1);
    let (n3, c3) = limb_step(w.l3, factor, c2);
    let (n4, c4) = limb_step(w.l4, factor, c3);
    let (n5, c5) = limb_step(w.l5, factor, c4);
    let r = Wide { l0: n0, l1: n1, l2: n2, l3: n3, l4: n4, l5: n5 };
    proof {
        let b = base();
        let f = factor as int;
        let h5 = w.l5 as int;
        let h4 = w.l4 + b * h5;
        let h3 = w.l3 + b * h4;
        let h2 = w.l2 + b * h3;
        let h1 = w.l1 + b * h2;
        let h0 = w.l0 + b * h1;
        lemma_scale_step(w.l4 as int, b, h5, f);
        lemma_scale_step(w.l3 as int, b, h4, f);
        lemma_scale_step(w.l2 as int, b, h3, f);
        lemma_scale_step(w.l1 as int, b, h2, f);
        lemma_scale_step(w.l0 as int, b, h1, f);
        let g5 = n5 + b * c5;
        let g4 = n4 + b * g5;
        let g3 = n3 + b * g4;
        let g2 = n2 + b * g3;
        let g1 = n1 + b * g2;
        let g0 = n0 + b * g1;
        assert(g5 == h5 * f + c4);
        lemma_carry_step(n4 as int, b, g5, h5 * f, c4 as int, w.l4 * f, c3 as int);
        lemma_carry_step(n3 as int, b, g4, h4 * f, c3 as int, w.l3 * f, c2 as int);
        lemma_carry_step(n2 as int, b, g3, h3 * f, c2 as int, w.l2 * f, c1 as int);
        lemma_carry_step(n1 as int, b, g2, h2 * f, c1 as int, w.l1 * f, c0 as int);
        lemma_carry_step(n0 as int, b, g1, h1 * f, c0 as int, w.l0 * f, 0);
        assert(g0 == h0 * f);
    }
    (r, c5)
}

/// The sign of the difference of two numbers: -1, 0 or 1.
pub(crate) fn compare_wide(a: &Wide, b: &Wide) -> (r: i8)
    ensures
        r == (if a.value() < b.value() {
            -1int
        } else if a.value() == b.value() {
            0int
        } else {
            1int
        }),
{
    if a.l5 != b.l5 {
        if a.l5 < b.l5 {
            -1
        } else {
            1
        }
    } else if a.l4 != b.l4 {
        if a.l4 < b.l4 {
            -1
        } else {
            1
        }
    } else if a.l3 != b.l3 {
        if a.l3 < b.l3 {
            -1
        } else {
            1
        }
    } else if a.l2 != b.l2 {
        if a.l2 < b.l2 {
            -1
        } else {
            1
        }
    } else if a.l1 != b.l1 {
        if a.l1 < b.l1 {
            -1
        } else {
            1
        }
    } else if a.l0 != b.l0 {
        if a.l0 < b.l0 {
            -1
        } else {
            1
        }
    } else {
        0
    }
}


/// Largest magnitude of a mantissa: 96 bits.
pub open spec fn mantissa_bound() -> int {
    79_228_162_514_264_337_593_543_950_335
}

/// The product of two numbers of at most 96 bits each.
pub(crate) fn wide_product(x: u128, y: u128) -> (w: Wide)
    requires
        x <= mantissa_bound(),
        y <= mantissa_bound(),
    ensures
        w.value() == x * y,
        w.value() < product_bound(),
{
    let (x0, x1) = split(x);
    let (y0, y1) = split(y);
    let ghost b = base();
    assert(x1 < 0x1_0000_0000 && y1 < 0x1_0000_0000);
    assert(x0 * y0 <= 0xffff_ffff_ffff_ffff_ffff_ffff_ffff_ffff && x0 * y1
        < 0x1_0000_0000_0000_0000_0000_0000 && x1 * y0 < 0x1_0000_0000_0000_0000_0000_0000 && x1
        * y1 < 0x1_0000_0000_0000_0000) by (nonlinear_arith)
        requires
            x0 <= 0xffff_ffff_ffff_ffff,
            y0 <= 0xffff_ffff_ffff_ffff,
            x1 < 0x1_0000_0000,
            y1 < 0x1_0000_0000,
    ;
    let p00: u128 = (x0 as u128) * (y0 as u128);
    let p01: u128 = (x0 as u128) * (y1 as u128);
    let p10: u128 = (x1 as u128) * (y0 as u128);
    let p11: u128 = (x1 as u128) * (y1 as u128);
    let (a0, a1) = split(p00);
    let (k0, k1) = split(p01 + p10);
    let (l1, c1) = split((a1 as u128) + (k0 as u128));
    let (l2, l3) = split((k1 as u128) + p11 + (c1 as u128));
    let w = Wide { l0: a0, l1, l2, l3, l4: 0, l5: 0 };
    proof {
        assert(x * y == p00 + b * ((p01 + p10) + b * p11)) by (nonlinear_arith)
            requires
                x == x0 + b * x1,
                y == y0 + b * y1,
                p00 == x0 * y0,
                p01 == x0 * y1,
                p10 == x1 * y0,
                p11 == x1 * y1,
        ;
        let mb = mantissa_bound();
        let pb = product_bound();
        assert(x * y < pb) by (nonlinear_arith)
            requires
                0 <= x <= mb,
                0 <= y <= mb,
                mb == 79_228_162_514_264_337_593_543_950_335,
                pb == 0x1_0000_0000_0000_0000_0000_0000_0000_0000_0000_0000_0000_0000int,
        ;
    }
    w
}

/// The largest power of ten in 64 bits, and the freedom that six limbs
/// leave above a product scaled by fifty-six places.
proof fn lemma_wide_room()
    ensures
        pow10(19) == 10_000_000_000_000_000_000,
        pow10(56) < product_bound(),
{
    reveal_with_fuel(pow10, 58);
}

/// Ten to the power `n`, for the exponents whose power fits in 64 bits.
fn pow10_u64(n: u32) -> (r: u64)
    requires
        n <= 19,
    ensures
        r == pow10(n as nat),
{
    let mut r: u64 = 1;
    let mut i: u32 = 0;
    while i < n
        invariant
            i <= n <= 19,
            r == pow10(i as nat),
        decreases n - i,
    {
        proof {
            lemma_pow10_monotonic((i + 1) as nat, 19);
            lemma_wide_room();
        }
        r = r * 10;
        i = i + 1;
    }
    r
}

/// The number times ten to the power `places`, for a number under the
/// bound of products and at most fifty-six places.
pub(crate) fn mul_pow10(w: Wide, places: u32) -> (r: Wide)
    requires
        places <= 56,
        0 <= w.value() < product_bound(),
    ensures
        r.value() == w.value() * pow10(places as nat),
{
    let mut current: Wide = w;
    let mut rest: u32 = places;
    proof {
        assert(w.value() * 1 == w.value()) by (nonlinear_arith);
    }
    while rest > 0
        invariant
            rest <= places <= 56,
            0 <= w.value() < product_bound(),
            current.value() == w.value() * pow10((places - rest) as nat),
        decreases rest,
    {
        let chunk: u32 = if rest > 19 {
            19
        } else {
            rest
        };
        let factor: u64 = pow10_u64(chunk);
        let (next, carry) = mul_small(current, factor);
        proof {
            let done = (places - rest) as nat;
            let v = w.value();
            let b = base();
            lemma_pow10_adds(done, chunk as nat);
            lemma_pow10_monotonic(done + chunk as nat, 56);
            lemma_pow10_positive(done + chunk as nat);
            lemma_wide_room();
            let p = pow10(done + chunk as nat) as int;
            assert((v * pow10(done)) * pow10(chunk as nat) == v * p) by (nonlinear_arith)
                requires
                    p == pow10(done) * pow10(chunk as nat),
            ;
            let pb = product_bound();
            let lb = limbs_bound();
            assert(v * p < lb) by (nonlinear_arith)
                requires
                    0 <= v < pb,
                    0 < p < pb,
                    pb == 0x1_0000_0000_0000_0000_0000_0000_0000_0000_0000_0000_0000_0000int,
                    lb
                        == 0x1_0000_0000_0000_0000_0000_0000_0000_0000_0000_0000_0000_0000_0000_0000_0000_0000_0000_0000_0000_0000_0000_0000_0000_0000int,
            ;
            assert(next.value_with(carry as int) < lb);
            assert(carry == 0);
        }
        current = next;
        rest = rest - chunk;
    }
    current
}

} // verus!
