//! Quantity and price grids: rounding to a step, and order sizes from a notional.

use crate::decimal::{
    ceil_int, ceil_of, floor_int, floor_of, lemma_pow10_positive, lemma_quotient_keeps_whole_order,
    lemma_whole, magnitude, multiplies_exactly, over, pow10, product, quotient, quotient_fits,
    rounds_quotient, whole, MAX_MANTISSA, Decimal,
};
use crate::market::{Price, Size};
use vstd::prelude::*;

verus! {

/// `a` rounded down to a multiple of `step`, or `a` itself where there is no step.
pub open spec fn stepped(a: Option<Decimal>, step: Decimal) -> Option<Decimal> {
    if step@ > 0 {
        match over(a, Some(step)) {
            None => None,
            Some(steps) => product(floor_of(steps), step),
        }
    } else {
        a
    }
}

proof fn lemma_snapped(a: int, step: int, ratio: int, steps: int, snapped: int)
    requires
        a >= 0,
        step > 0,
        steps >= 0,
        -MAX_MANTISSA <= steps <= MAX_MANTISSA,
        rounds_quotient(a, step, ratio),
        quotient_fits(a, step),
        snapped * pow10(28) == (steps * pow10(28)) * step,
    ensures
        snapped == steps * step,
        steps * pow10(28) <= ratio < (steps + 1) * pow10(28) ==> a < snapped + step && 2 * (snapped
            - a) * pow10(27) <= snapped + step,
        (steps - 1) * pow10(28) < ratio <= steps * pow10(28) ==> (snapped < a + step || steps == 0)
            && 2 * (a - snapped) * pow10(27) <= snapped + step,
{
    let (p, q) = (pow10(28), pow10(27));
    lemma_pow10_positive(27);
    assert(p == 10 * q);
    assert(snapped == steps * step) by (nonlinear_arith)
        requires
            snapped * p == (steps * p) * step,
            p >= 1,
    ;
    assert((steps + 1) * step == snapped + step && (steps - 1) * step == snapped - step)
        by (nonlinear_arith)
        requires
            snapped == steps * step,
    ;
    lemma_quotient_keeps_whole_order(a, step, ratio, steps);
    if steps + 1 <= MAX_MANTISSA {
        lemma_quotient_keeps_whole_order(a, step, ratio, steps + 1);
    } else {
        let most = MAX_MANTISSA as int;
        assert(steps == most);
        assert(step * (2 * most + 1) == 2 * snapped + step) by (nonlinear_arith)
            requires
                snapped == most * step,
        ;
    }
    if steps >= 1 {
        lemma_quotient_keeps_whole_order(a, step, ratio, steps - 1);
    }
    if ratio == steps * p {
        reveal(rounds_quotient);
        let off = magnitude(snapped - a);
        assert(magnitude(ratio * step - a * p) == off * p) by (nonlinear_arith)
            requires
                ratio == steps * p,
                snapped == steps * step,
                off == magnitude(snapped - a),
                p >= 1,
        ;
        assert(step * (ratio + q) == snapped * p + step * q) by (nonlinear_arith)
            requires
                ratio == steps * p,
                snapped == steps * step,
        ;
        assert(magnitude(ratio) == ratio) by (nonlinear_arith)
            requires
                ratio == steps * p,
                steps >= 0,
                p >= 1,
        ;
        assert(2 * (off * p) * q == (2 * off * q) * p) by (nonlinear_arith);
        assert(2 * off * q <= snapped + step) by (nonlinear_arith)
            requires
                (2 * off * q) * p <= snapped * p + step * q,
                step > 0,
                q >= 1,
                p == 10 * q,
        ;
        assert(2 * (snapped - a) * q <= 2 * off * q && 2 * (a - snapped) * q <= 2 * off * q)
            by (nonlinear_arith)
            requires
                off == magnitude(snapped - a),
                q >= 1,
        ;
    } else {
        assert(snapped < a ==> 2 * (snapped - a) * q <= 0) by (nonlinear_arith)
            requires
                q >= 1,
        ;
        assert(snapped > a ==> 2 * (a - snapped) * q <= 0) by (nonlinear_arith)
            requires
                q >= 1,
        ;
        assert(snapped >= 0) by (nonlinear_arith)
            requires
                snapped == steps * step,
                steps >= 0,
                step > 0,
        ;
    }
}

/// Rounds down to the step; see [`stepped`]. Where no digit is lost in counting the steps,
/// an amount that is not negative comes down by less than a step, and ends above itself by no
/// more than the division rounds, in the 27th digit.
pub fn try_stepped(a: Decimal, step: Decimal) -> (result: Option<Decimal>)
    ensures
        result == stepped(Some(a), step),
        result is Some && a@ >= 0 && step@ > 0 && multiplies_exactly(
            floor_of(quotient(a, step)->0),
            step,
        ) ==> a@ < result->0@ + step@ && 2 * (result->0@ - a@) * pow10(27) <= result->0@ + step@,
{
    if step.is_positive() {
        let ratio = a.checked_div(step)?;
        let steps = ratio.floor();
        let result = steps.checked_mul(step)?;
        proof {
            lemma_whole(floor_int(ratio));
            if a@ >= 0 && multiplies_exactly(steps, step) {
                let (n, p) = (floor_int(ratio), pow10(28));
                lemma_pow10_positive(28);
                assert(n >= 0) by (nonlinear_arith)
                    requires
                        n * p >= 0,
                        p >= 1,
                ;
                assert((n + 1) * p == n * p + p) by (nonlinear_arith);
                lemma_snapped(a@, step@, ratio@, n, result@);
            }
        }
        Some(result)
    } else {
        Some(a)
    }
}

/// `a` rounded up to a multiple of `step`, or `a` itself where there is no step.
pub open spec fn stepped_up(a: Option<Decimal>, step: Decimal) -> Option<Decimal> {
    if step@ > 0 {
        match over(a, Some(step)) {
            None => None,
            Some(steps) => product(ceil_of(steps), step),
        }
    } else {
        a
    }
}

/// Rounds up to the step; see [`stepped_up`]. Where no digit is lost in counting the steps,
/// an amount that is not negative goes up by less than a step, and ends below itself by no
/// more than the division rounds, in the 27th digit.
pub fn try_stepped_up(a: Decimal, step: Decimal) -> (result: Option<Decimal>)
    ensures
        result == stepped_up(Some(a), step),
        result is Some && a@ >= 0 && step@ > 0 && multiplies_exactly(
            ceil_of(quotient(a, step)->0),
            step,
        ) ==> result->0@ < a@ + step@ && 2 * (a@ - result->0@) * pow10(27) <= result->0@ + step@,
{
    if step.is_positive() {
        let ratio = a.checked_div(step)?;
        let steps = ratio.ceil();
        let result = steps.checked_mul(step)?;
        proof {
            lemma_whole(ceil_int(ratio));
            if a@ >= 0 && multiplies_exactly(steps, step) {
                let (n, p) = (ceil_int(ratio), pow10(28));
                lemma_pow10_positive(28);
                assert(n >= 0) by (nonlinear_arith)
                    requires
                        n * p >= 0,
                        p >= 1,
                ;
                assert((n - 1) * p == n * p - p) by (nonlinear_arith);
                lemma_snapped(a@, step@, ratio@, n, result@);
            }
        }
        Some(result)
    } else {
        Some(a)
    }
}

/// The size worth `notional` at `price`, on the lot grid; one step where that rounds
/// to nothing but is over half a step. Zero where the price is not positive.
pub open spec fn leg_size(notional: Decimal, price: Decimal, step: Decimal) -> Option<Decimal> {
    if price@ <= 0 {
        Some(whole(0))
    } else {
        match quotient(notional, price) {
            None => None,
            Some(raw) => match stepped(Some(raw), step) {
                None => None,
                Some(floored) => if floored@ <= 0 && step@ > 0 {
                    match quotient(step, whole(2)) {
                        None => None,
                        Some(half) => Some(
                            if raw@ > half@ {
                                step
                            } else {
                                floored
                            },
                        ),
                    }
                } else {
                    Some(floored)
                },
            },
        }
    }
}

/// Order size from a notional; see [`leg_size`].
pub fn try_leg_size(notional: Decimal, price: Decimal, step: Decimal) -> (result: Option<Decimal>)
    ensures
        result == leg_size(notional, price, step),
{
    if !price.is_positive() {
        return Some(Decimal::zero());
    }
    let raw = notional.checked_div(price)?;
    let size = try_stepped(raw, step)?;
    if !size.is_positive() && step.is_positive() {
        let half = step.checked_div(Decimal::whole(2))?;
        if raw.is_more(half) {
            return Some(step);
        }
    }
    Some(size)
}

/// The size worth `notional` at `price`, on the lot grid; where that is worth less
/// than `min_notional`, `min_notional / price` rounded up to the grid. Zero where the
/// price is not positive.
pub open spec fn lot_size(
    notional: Decimal,
    price: Decimal,
    step: Decimal,
    min_notional: Decimal,
) -> Option<Decimal> {
    if price@ <= 0 {
        Some(whole(0))
    } else {
        match quotient(notional, price) {
            None => None,
            Some(raw) => match stepped(Some(raw), step) {
                None => None,
                Some(size) => if min_notional@ > 0 {
                    match product(size, price) {
                        None => None,
                        Some(value) => if value@ < min_notional@ && step@ > 0 {
                            stepped_up(quotient(min_notional, price), step)
                        } else {
                            Some(size)
                        },
                    }
                } else {
                    Some(size)
                },
            },
        }
    }
}

/// Order size from a notional; see [`lot_size`].
pub fn try_lot_size(notional: Decimal, price: Price, step: Decimal, min_notional: Decimal)
    -> (result: Option<Size>)
    ensures
        match lot_size(notional, price.0, step, min_notional) {
            Some(size) => result == Some(Size(size)),
            None => result is None,
        },
{
    if !price.0.is_positive() {
        return Some(Size(Decimal::zero()));
    }
    let raw = notional.checked_div(price.0)?;
    let size = try_stepped(raw, step)?;
    if min_notional.is_positive() {
        let value = size.checked_mul(price.0)?;
        if value.is_less(min_notional) && step.is_positive() {
            let needed = try_stepped_up(min_notional.checked_div(price.0)?, step)?;
            return Some(Size(needed));
        }
    }
    Some(Size(size))
}

/// The size worth `notional` at `price`, on the lot grid, and no smaller than
/// `min_notional / price` rounded up to the grid.
pub open spec fn floored_lot_size(
    notional: Decimal,
    price: Decimal,
    step: Decimal,
    min_notional: Decimal,
) -> Option<Decimal> {
    match quotient(notional, price) {
        None => None,
        Some(raw) => match stepped(Some(raw), step) {
            None => None,
            Some(size) => if min_notional@ > 0 && step@ > 0 {
                match stepped_up(quotient(min_notional, price), step) {
                    None => None,
                    Some(least) => Some(
                        if size@ < least@ {
                            least
                        } else {
                            size
                        },
                    ),
                }
            } else {
                Some(size)
            },
        },
    }
}

/// Order size from a notional; see [`floored_lot_size`].
pub fn try_floored_lot_size(notional: Decimal, price: Price, step: Decimal, min_notional: Decimal)
    -> (result: Option<Size>)
    ensures
        match floored_lot_size(notional, price.0, step, min_notional) {
            Some(size) => result == Some(Size(size)),
            None => result is None,
        },
{
    let raw = notional.checked_div(price.0)?;
    let size = try_stepped(raw, step)?;
    if min_notional.is_positive() && step.is_positive() {
        let least = try_stepped_up(min_notional.checked_div(price.0)?, step)?;
        if size.is_less(least) {
            return Some(Size(least));
        }
    }
    Some(Size(size))
}

/// A size from a notional is worth it at the price, rounded down to whole lots; where that is
/// nothing, one lot if more than half a lot was asked for.
pub proof fn law_leg_size_rounds_to_lots(
    notional: Decimal,
    price: Decimal,
    step: Decimal,
    raw: Decimal,
    floored: Decimal,
    half: Decimal,
)
    requires
        price@ > 0,
        step@ > 0,
        quotient(notional, price) == Some(raw),
        stepped(Some(raw), step) == Some(floored),
        quotient(step, whole(2)) == Some(half),
        half@ * 2 == step@,
    ensures
        floored@ > 0 ==> leg_size(notional, price, step) == Some(floored),
        floored@ <= 0 && 2 * raw@ > step@ ==> leg_size(notional, price, step) == Some(step),
        floored@ <= 0 && 2 * raw@ <= step@ ==> leg_size(notional, price, step) == Some(floored),
{
}

/// A size worth the minimum is kept as it is; a smaller one is replaced by the minimum at that
/// price, rounded up to whole lots.
pub proof fn law_lot_size_clears_the_minimum(
    notional: Decimal,
    price: Decimal,
    step: Decimal,
    min_notional: Decimal,
    raw: Decimal,
    size: Decimal,
    value: Decimal,
)
    requires
        price@ > 0,
        step@ > 0,
        quotient(notional, price) == Some(raw),
        stepped(Some(raw), step) == Some(size),
        product(size, price) == Some(value),
    ensures
        min_notional@ <= 0 || value@ >= min_notional@ ==> lot_size(
            notional,
            price,
            step,
            min_notional,
        ) == Some(size),
        0 < min_notional@ && value@ < min_notional@ ==> lot_size(notional, price, step, min_notional)
            == stepped_up(quotient(min_notional, price), step),
{
}

/// A size with a floor is the larger of the two: what the notional buys in whole lots, and the
/// least number of lots for the minimum.
pub proof fn law_floored_lot_size_is_the_larger(
    notional: Decimal,
    price: Decimal,
    step: Decimal,
    min_notional: Decimal,
    raw: Decimal,
    size: Decimal,
    least: Decimal,
)
    requires
        step@ > 0,
        min_notional@ > 0,
        quotient(notional, price) == Some(raw),
        stepped(Some(raw), step) == Some(size),
        stepped_up(quotient(min_notional, price), step) == Some(least),
    ensures
        floored_lot_size(notional, price, step, min_notional) matches Some(chosen) && chosen@
            >= size@ && chosen@ >= least@ && (chosen == size || chosen == least),
{
}

/// A grid of steps counts them down from an amount and up from it.
pub proof fn law_steps_are_counted(a: Decimal, step: Decimal, ratio: Decimal)
    requires
        step@ > 0,
        quotient(a, step) == Some(ratio),
    ensures
        stepped(Some(a), step) == product(whole(floor_int(ratio)), step),
        stepped_up(Some(a), step) == product(whole(ceil_int(ratio)), step),
{
}

} // verus!
