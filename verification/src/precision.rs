//! Exchange increments: quantities are cut down to a multiple of the lot
//! step, prices are moved to the nearest multiple of the tick.

use crate::decimal::{
    aligned_den, aligned_num, floor_ratio, lemma_pow10_positive, lemma_view_wide,
    nearest_even_ratio, pow10, ratio_fits, unit, Decimal,
};
use crate::rounding::{
    abs, floor_div, floor_to_step, lemma_floor_div_common_factor, lemma_floor_div_of_multiple,
    lemma_floor_to_step_not_above, lemma_nearest_even_common_factor, lemma_nearest_even_error,
    lemma_nearest_even_of_multiple, nearest_even_div, round_to_step,
};
use vstd::prelude::*;

verus! {

/// Whether `amount` can be cut down to a multiple of a non-zero `step`
/// within the machine's limits: the two fit in 128 bits at one scale, and
/// the multiple has a mantissa that fits at the step's scale.
pub open spec fn quantity_fits(amount: Decimal, step: Decimal) -> bool {
    &&& ratio_fits(
        amount.spec_mantissa(),
        amount.spec_scale(),
        step.spec_mantissa(),
        step.spec_scale(),
    )
    &&& Decimal::representable(
        floor_div(amount@, step@) * step.spec_mantissa(),
        step.spec_scale(),
    )
}

/// Whether `price` can be moved to the nearest multiple of a non-zero
/// `tick` within the machine's limits: the two fit in 128 bits at one scale,
/// and the multiple has a mantissa that fits at the tick's scale.
pub open spec fn price_fits(price: Decimal, tick: Decimal) -> bool {
    &&& ratio_fits(
        price.spec_mantissa(),
        price.spec_scale(),
        tick.spec_mantissa(),
        tick.spec_scale(),
    )
    &&& Decimal::representable(
        nearest_even_div(price@, tick@) * tick.spec_mantissa(),
        tick.spec_scale(),
    )
}

/// `count` steps, as a decimal at the step's scale, where that fits.
pub(crate) fn steps(count: i128, step: &Decimal) -> (r: Option<Decimal>)
    ensures
        r is Some <==> Decimal::representable(
            count * step.spec_mantissa(),
            step.spec_scale(),
        ),
        r matches Some(d) ==> {
            &&& d == Decimal::from_parts(count * step.spec_mantissa(), step.spec_scale())
            &&& d@ == count * step@
            &&& d.spec_scale() == step.spec_scale()
            &&& d.spec_mantissa() == count * step.spec_mantissa()
        },
{
    let m: i128 = step.mantissa();
    let s: u32 = step.scale();
    proof {
        let p = pow10((28 - s) as nat) as int;
        assert((count * m) * p == count * (m * p)) by (nonlinear_arith);
    }
    match count.checked_mul(m) {
        Some(product) => Decimal::try_from_i128_with_scale(product, s),
        None => None,
    }
}

/// `amount` rounded down to a multiple of `step_size`, or `amount` itself
/// where the step is zero; `None` exactly where `quantity_fits` fails.
pub fn try_normalize_quantity(amount: Decimal, step_size: Decimal) -> (r: Option<Decimal>)
    ensures
        step_size@ == 0 ==> r == Some(amount),
        step_size@ != 0 ==> (r is Some <==> quantity_fits(amount, step_size)),
        r matches Some(d) ==> {
            &&& d@ == floor_to_step(amount@, step_size@)
            &&& step_size@ != 0 ==> d == Decimal::from_parts(
                floor_div(amount@, step_size@) * step_size.spec_mantissa(),
                step_size.spec_scale(),
            ) && d.spec_scale() == step_size.spec_scale()
        },
{
    if step_size.is_zero() {
        return Some(amount);
    }
    let sm: i128 = step_size.mantissa();
    let am: i128 = amount.mantissa();
    proof {
        lemma_view_wide(amount);
        lemma_view_wide(step_size);
        lemma_pow10_positive(28);
        lemma_pow10_positive((28 - step_size.spec_scale()) as nat);
        lemma_floor_div_common_factor(amount@, step_size@, unit());
        assert(sm != 0) by (nonlinear_arith)
            requires
                sm * pow10((28 - step_size.spec_scale()) as nat) != 0,
        ;
    }
    match floor_ratio(am, amount.scale(), sm, step_size.scale()) {
        Some(k) => steps(k, &step_size),
        None => None,
    }
}

/// `amount` rounded down to a multiple of `step_size`, never up; `amount`
/// itself where the step is zero.
pub fn normalize_quantity(amount: Decimal, step_size: Decimal) -> (d: Decimal)
    requires
        step_size@ == 0 || quantity_fits(amount, step_size),
    ensures
        d@ == floor_to_step(amount@, step_size@),
        step_size@ == 0 ==> d == amount,
        step_size@ != 0 ==> d.spec_scale() == step_size.spec_scale(),
{
    match try_normalize_quantity(amount, step_size) {
        Some(d) => d,
        None => amount,
    }
}

/// `price` moved to the nearest multiple of `tick_size`, a tie going to the
/// even multiple, or `price` itself where the tick is zero; `None` exactly
/// where `price_fits` fails.
pub fn try_normalize_price(price: Decimal, tick_size: Decimal) -> (r: Option<Decimal>)
    ensures
        tick_size@ == 0 ==> r == Some(price),
        tick_size@ != 0 ==> (r is Some <==> price_fits(price, tick_size)),
        r matches Some(d) ==> {
            &&& d@ == round_to_step(price@, tick_size@)
            &&& tick_size@ != 0 ==> d == Decimal::from_parts(
                nearest_even_div(price@, tick_size@) * tick_size.spec_mantissa(),
                tick_size.spec_scale(),
            ) && d.spec_scale() == tick_size.spec_scale()
        },
{
    if tick_size.is_zero() {
        return Some(price);
    }
    let tm: i128 = tick_size.mantissa();
    let pm: i128 = price.mantissa();
    proof {
        lemma_view_wide(price);
        lemma_view_wide(tick_size);
        lemma_pow10_positive(28);
        lemma_pow10_positive((28 - tick_size.spec_scale()) as nat);
        lemma_nearest_even_common_factor(price@, tick_size@, unit());
        assert(tm != 0) by (nonlinear_arith)
            requires
                tm * pow10((28 - tick_size.spec_scale()) as nat) != 0,
        ;
    }
    match nearest_even_ratio(pm, price.scale(), tm, tick_size.scale()) {
        Some(k) => steps(k, &tick_size),
        None => None,
    }
}

/// `price` moved to the nearest multiple of `tick_size`, a tie going to the
/// even multiple; `price` itself where the tick is zero.
pub fn normalize_price(price: Decimal, tick_size: Decimal) -> (d: Decimal)
    requires
        tick_size@ == 0 || price_fits(price, tick_size),
    ensures
        d@ == round_to_step(price@, tick_size@),
        tick_size@ == 0 ==> d == price,
        tick_size@ != 0 ==> d.spec_scale() == tick_size.spec_scale(),
{
    match try_normalize_price(price, tick_size) {
        Some(d) => d,
        None => price,
    }
}


/// A decimal that is a whole number of steps, written at the scale of the
/// step, has that many step mantissas as its mantissa.
proof fn lemma_whole_steps(once: Decimal, step: Decimal, k: int)
    requires
        once.wf(),
        step.wf(),
        once.spec_scale() == step.spec_scale(),
        once@ == k * step@,
    ensures
        once.spec_mantissa() == k * step.spec_mantissa(),
        aligned_num(once.spec_mantissa(), once.spec_scale(), step.spec_scale())
            == once.spec_mantissa(),
        aligned_den(step.spec_mantissa(), once.spec_scale(), step.spec_scale())
            == step.spec_mantissa(),
{
    once.lemma_wf();
    step.lemma_wf();
    let f = pow10((28 - step.spec_scale()) as nat) as int;
    lemma_pow10_positive((28 - step.spec_scale()) as nat);
    let m = once.spec_mantissa();
    let sm = step.spec_mantissa();
    assert(m == k * sm) by (nonlinear_arith)
        requires
            m * f == k * (sm * f),
            f > 0,
    ;
    assert(pow10(0) == 1);
    assert(m * 1 == m) by (nonlinear_arith);
    assert(sm * 1 == sm) by (nonlinear_arith);
}

/// What `normalize_quantity` returns can be normalized again, and comes
/// back as it is: rounding a quantity down twice gives what rounding once
/// gives. `once` stands for the first result, described by what the
/// function ensures of it.
pub proof fn lemma_normalize_quantity_idempotent(amount: Decimal, step: Decimal, once: Decimal)
    requires
        once.wf(),
        step.wf(),
        step@ != 0,
        once@ == floor_to_step(amount@, step@),
        once.spec_scale() == step.spec_scale(),
    ensures
        quantity_fits(once, step),
        floor_to_step(once@, step@) == once@,
        Decimal::from_parts(floor_div(once@, step@) * step.spec_mantissa(), step.spec_scale())
            == once,
{
    let k = floor_div(amount@, step@);
    lemma_whole_steps(once, step, k);
    lemma_floor_div_of_multiple(k, step@);
    once.lemma_wf();
    step.lemma_wf();
    once.lemma_parts();
    assert(floor_div(once@, step@) == k);
    assert(ratio_fits(
        once.spec_mantissa(),
        once.spec_scale(),
        step.spec_mantissa(),
        step.spec_scale(),
    ));
}

/// For a positive step, what `normalize_quantity` returns is at most the
/// amount and less than one step under it, and is not negative where the
/// amount is not.
pub proof fn lemma_normalize_quantity_bounds(amount: Decimal, step: Decimal, once: Decimal)
    requires
        step@ > 0,
        once@ == floor_to_step(amount@, step@),
    ensures
        once@ <= amount@,
        amount@ - once@ < step@,
        amount@ >= 0 ==> once@ >= 0,
{
    lemma_floor_to_step_not_above(amount@, step@);
}

/// What `normalize_price` returns can be normalized again, and comes back
/// as it is. `once` stands for the first result, described by what the
/// function ensures of it.
pub proof fn lemma_normalize_price_idempotent(price: Decimal, tick: Decimal, once: Decimal)
    requires
        once.wf(),
        tick.wf(),
        tick@ != 0,
        once@ == round_to_step(price@, tick@),
        once.spec_scale() == tick.spec_scale(),
    ensures
        price_fits(once, tick),
        round_to_step(once@, tick@) == once@,
        Decimal::from_parts(nearest_even_div(once@, tick@) * tick.spec_mantissa(), tick.spec_scale())
            == once,
{
    let k = nearest_even_div(price@, tick@);
    lemma_whole_steps(once, tick, k);
    lemma_nearest_even_of_multiple(k, tick@);
    once.lemma_wf();
    tick.lemma_wf();
    once.lemma_parts();
    assert(nearest_even_div(once@, tick@) == k);
    assert(ratio_fits(
        once.spec_mantissa(),
        once.spec_scale(),
        tick.spec_mantissa(),
        tick.spec_scale(),
    ));
}

/// What `normalize_price` returns lies within half a tick of the price, on
/// either side.
pub proof fn lemma_normalize_price_within_half_tick(price: Decimal, tick: Decimal, once: Decimal)
    requires
        once@ == round_to_step(price@, tick@),
    ensures
        2 * abs(once@ - price@) <= abs(tick@),
{
    if tick@ != 0 {
        lemma_nearest_even_error(price@, tick@);
    }
}

} // verus!
