//! Book and price arithmetic used by spread scalping. Every helper is stateless.

use crate::decimal::{
    adds_exactly, difference, exact_difference, floor_int, floor_of, lemma_pow10_positive,
    lemma_quotient_keeps_whole_order, lemma_whole, lemma_whole_arithmetic, multiplies_exactly, over,
    plus, pow10, product, quotient, quotient_fits, rounds_quotient, subtracts_exactly, sum, times,
    whole, MAX_MANTISSA, Decimal,
};
use crate::market::{Price, Size, Snapshot};
use crate::quoting::{
    leans_to_thinner, measures_exactly, midpoint, reads_bps, try_bps_of, try_midpoint,
    try_weighted_mid, weighs_exactly, weighted_mid,
};
use crate::sizing::{stepped, try_stepped};
use vstd::prelude::*;

verus! {

/// Top of book: best prices and the sizes resting there.
#[derive(Clone, Copy, Debug)]
pub struct Top {
    /// Best bid price.
    pub bid: Price,
    /// Best ask price.
    pub ask: Price,
    /// Size resting at the best bid.
    pub bid_size: Size,
    /// Size resting at the best ask.
    pub ask_size: Size,
}

/// The top of a book with both sides.
pub open spec fn top_of(snap: Snapshot) -> Option<Top> {
    if snap.bids@.len() == 0 || snap.asks@.len() == 0 {
        None
    } else {
        Some(
            Top {
                bid: snap.bids@[0].price,
                ask: snap.asks@[0].price,
                bid_size: snap.bids@[0].size,
                ask_size: snap.asks@[0].size,
            },
        )
    }
}

/// The mid of a top of book.
pub open spec fn top_mid(top: Top) -> Option<Decimal> {
    midpoint(top.bid.0, top.ask.0)
}

/// `(ask - bid) / mid x 10_000`; the inner `None` is a mid that is not positive.
pub open spec fn top_spread_bps(top: Top) -> Option<Option<Decimal>> {
    match top_mid(top) {
        None => None,
        Some(mid) => if mid@ <= 0 {
            Some(None)
        } else {
            match times(over(difference(top.ask.0, top.bid.0), Some(mid)), Some(whole(10_000))) {
                None => None,
                Some(bps) => Some(Some(bps)),
            }
        },
    }
}

/// `(bid_size x ask + ask_size x bid) / (bid_size + ask_size)`, or the mid where
/// the sizes do not add up to a positive number.
pub open spec fn top_microprice(top: Top) -> Option<Decimal> {
    match sum(top.bid_size.0, top.ask_size.0) {
        None => None,
        Some(total) => if total@ <= 0 {
            top_mid(top)
        } else {
            weighted_mid(top.bid.0, top.bid_size.0, top.ask.0, top.ask_size.0, total)
        },
    }
}

impl Top {
    /// The top of a book, or `None` where a side is empty.
    pub fn from_snapshot(snap: &Snapshot) -> (result: Option<Top>)
        ensures
            result == top_of(*snap),
    {
        if snap.bids.len() == 0 || snap.asks.len() == 0 {
            return None;
        }
        let b = snap.bids[0];
        let a = snap.asks[0];
        Some(Top { bid: b.price, ask: a.price, bid_size: b.size, ask_size: a.size })
    }

    /// The mid, or `None` where it cannot be represented.
    pub fn try_mid(&self) -> (result: Option<Price>)
        ensures
            match top_mid(*self) {
                Some(mid) => result == Some(Price(mid)),
                None => result is None,
            },
            adds_exactly(self.bid.0, self.ask.0) && self.bid.0@ <= self.ask.0@ ==> result is Some
                && self.bid.0@ <= (result->0).0@ <= self.ask.0@,
    {
        let mid = try_midpoint(self.bid.0, self.ask.0)?;
        Some(Price(mid))
    }

    /// Midpoint between best bid and best ask.
    pub fn mid(&self) -> (result: Price)
        requires
            top_mid(*self) is Some,
        ensures
            top_mid(*self) == Some(result.0),
            adds_exactly(self.bid.0, self.ask.0) && self.bid.0@ <= self.ask.0@ ==> self.bid.0@
                <= result.0@ <= self.ask.0@,
    {
        self.try_mid().unwrap()
    }

    /// The spread in bps of the mid; see [`top_spread_bps`].
    pub fn try_spread_bps(&self) -> (result: Option<Option<Decimal>>)
        ensures
            result == top_spread_bps(*self),
            result matches Some(Some(bps)) ==> {
                let mid = midpoint(self.bid.0, self.ask.0)->0;
                &&& mid@ > 0
                &&& exact_difference(self.ask.0, self.bid.0) && measures_exactly(
                    difference(self.ask.0, self.bid.0)->0,
                    mid,
                ) ==> reads_bps(self.ask.0@ - self.bid.0@, mid@, bps@)
            },
    {
        let mid = try_midpoint(self.bid.0, self.ask.0)?;
        if !mid.is_positive() {
            return Some(None);
        }
        let bps = try_bps_of(self.ask.0.checked_sub(self.bid.0)?, mid)?;
        Some(Some(bps))
    }

    /// The spread in bps of the mid, or `None` where the mid is not positive.
    pub fn spread_bps(&self) -> (result: Option<Decimal>)
        requires
            top_spread_bps(*self) is Some,
        ensures
            top_spread_bps(*self) == Some(result),
    {
        self.try_spread_bps().unwrap()
    }

    /// The microprice, or `None` where it cannot be represented. Where no digit is lost in
    /// weighting, it lies between the touches, pulled to the side of the thinner size.
    pub fn try_microprice(&self) -> (result: Option<Price>)
        ensures
            match top_microprice(*self) {
                Some(price) => result == Some(Price(price)),
                None => result is None,
            },
            result is Some && self.bid_size.0@ + self.ask_size.0@ > 0 && weighs_exactly(
                self.bid.0,
                self.bid_size.0,
                self.ask.0,
                self.ask_size.0,
            ) ==> leans_to_thinner(
                self.bid.0@,
                self.bid_size.0@,
                self.ask.0@,
                self.ask_size.0@,
                (result->0).0@,
            ),
    {
        let b = self.bid_size.0;
        let a = self.ask_size.0;
        let total = b.checked_add(a)?;
        if !total.is_positive() {
            return self.try_mid();
        }
        let micro = try_weighted_mid(self.bid.0, b, self.ask.0, a, total)?;
        Some(Price(micro))
    }

    /// The size-weighted price between the touches. Where no digit is lost in weighting, it is
    /// pulled to the side of the thinner size.
    pub fn microprice(&self) -> (result: Price)
        requires
            top_microprice(*self) is Some,
        ensures
            top_microprice(*self) == Some(result.0),
            self.bid_size.0@ + self.ask_size.0@ > 0 && weighs_exactly(
                self.bid.0,
                self.bid_size.0,
                self.ask.0,
                self.ask_size.0,
            ) ==> leans_to_thinner(
                self.bid.0@,
                self.bid_size.0@,
                self.ask.0@,
                self.ask_size.0@,
                result.0@,
            ),
    {
        self.try_microprice().unwrap()
    }
}

/// The number of whole steps, each worth `step_value`, that cover `gap`.
pub open spec fn covering_steps(gap: Decimal, step_value: Decimal) -> Option<Decimal> {
    match quotient(gap, step_value) {
        None => None,
        Some(ratio) => match product(floor_of(ratio), step_value) {
            None => None,
            Some(covered) => if covered@ < gap@ {
                sum(floor_of(ratio), whole(1))
            } else {
                Some(floor_of(ratio))
            },
        },
    }
}

/// `raw`, raised by as many lot steps as it takes for `size x price` to reach
/// `min_notional`.
pub open spec fn raised_size(
    raw: Decimal,
    price: Price,
    min_notional: Decimal,
    step_size: Decimal,
) -> Option<Decimal> {
    if min_notional@ <= 0 || price.0@ <= 0 {
        Some(raw)
    } else {
        match product(raw, price.0) {
            None => None,
            Some(current) => if current@ >= min_notional@ {
                Some(raw)
            } else if step_size@ <= 0 {
                quotient(min_notional, price.0)
            } else {
                match (difference(min_notional, current), product(price.0, step_size)) {
                    (Some(gap), Some(step_value)) => if step_value@ <= 0 {
                        Some(raw)
                    } else {
                        plus(
                            Some(raw),
                            times(covering_steps(gap, step_value), Some(step_size)),
                        )
                    },
                    _ => None,
                }
            },
        }
    }
}

/// Whether no step of raising a size loses a digit: the number of lot steps to add can be
/// represented, and the products and sums on the way are exact.
pub open spec fn raises_exactly(
    raw: Decimal,
    price: Price,
    min_notional: Decimal,
    step_size: Decimal,
) -> bool {
    let current = product(raw, price.0)->0;
    let gap = difference(min_notional, current)->0;
    let step_value = product(price.0, step_size)->0;
    let steps = floor_of(quotient(gap, step_value)->0);
    let needed = covering_steps(gap, step_value)->0;
    &&& multiplies_exactly(raw, price.0)
    &&& subtracts_exactly(min_notional, current)
    &&& multiplies_exactly(price.0, step_size)
    &&& quotient_fits(gap@, step_value@)
    &&& multiplies_exactly(steps, step_value)
    &&& adds_exactly(steps, whole(1))
    &&& multiplies_exactly(needed, step_size)
    &&& adds_exactly(raw, product(needed, step_size)->0)
}

/// Whether `size` is `raw` raised by as few lot steps as it takes for `size x price` to
/// reach `min_notional`, all in units of 10^-28.
pub open spec fn raised_by_fewest(raw: int, price: int, min_notional: int, step: int, size: int)
    -> bool {
    exists|steps: int|
        {
            &&& steps >= 0
            &&& size == raw + #[trigger] (steps * step)
            &&& size * price >= min_notional * pow10(28)
            &&& forall|fewer: int|
                0 <= fewer < steps ==> (raw + #[trigger] (fewer * step)) * price < min_notional
                    * pow10(28)
        }
}

proof fn lemma_needed_steps(gap: int, step_value: int, ratio: int, k: int)
    requires
        gap > 0,
        step_value > 0,
        k >= 0,
        -MAX_MANTISSA <= k <= MAX_MANTISSA,
        rounds_quotient(gap, step_value, ratio),
        k * pow10(28) <= ratio < (k + 1) * pow10(28),
    ensures
        k * step_value < gap && k + 1 <= MAX_MANTISSA ==> (k + 1) * step_value >= gap,
        k * step_value >= gap ==> k > 0 && (k - 1) * step_value < gap,
{
    let p = pow10(28);
    lemma_pow10_positive(28);
    if k + 1 <= MAX_MANTISSA {
        lemma_quotient_keeps_whole_order(gap, step_value, ratio, k + 1);
    }
    if k * step_value >= gap {
        assert(k > 0) by (nonlinear_arith)
            requires
                k * step_value >= gap,
                gap > 0,
                k >= 0,
        ;
        lemma_quotient_keeps_whole_order(gap, step_value, ratio, k - 1);
        assert((k - 1) * p < k * p) by (nonlinear_arith)
            requires
                p >= 1,
        ;
    }
}

proof fn lemma_fewest_steps(
    raw: int,
    price: int,
    min_notional: int,
    step: int,
    current: int,
    step_value: int,
    steps: int,
)
    requires
        step_value > 0,
        current * pow10(28) == raw * price,
        step_value * pow10(28) == price * step,
        steps >= 0,
        steps * step_value >= min_notional - current,
        steps > 0 ==> (steps - 1) * step_value < min_notional - current,
    ensures
        raised_by_fewest(raw, price, min_notional, step, raw + steps * step),
{
    let p = pow10(28);
    lemma_pow10_positive(28);
    assert forall|n: int| (raw + #[trigger] (n * step)) * price == (current + n * step_value)
        * p by {
        assert((raw + n * step) * price == raw * price + n * (price * step)) by (nonlinear_arith);
        assert((current + n * step_value) * p == current * p + n * (step_value * p))
            by (nonlinear_arith);
    }
    let reached = current + steps * step_value;
    assert(reached * p >= min_notional * p) by (nonlinear_arith)
        requires
            reached >= min_notional,
            p >= 1,
    ;
    assert((raw + steps * step) * price == reached * p);
    assert forall|fewer: int| 0 <= fewer < steps implies (raw + #[trigger] (fewer * step)) * price
        < min_notional * p by {
        let short = current + fewer * step_value;
        assert(fewer * step_value <= (steps - 1) * step_value) by (nonlinear_arith)
            requires
                fewer <= steps - 1,
                step_value > 0,
        ;
        assert(short * p < min_notional * p) by (nonlinear_arith)
            requires
                short < min_notional,
                p >= 1,
        ;
        assert((raw + fewer * step) * price == short * p);
    }
}

/// Raises a size to the minimum notional, or returns `None` where a number it
/// needs cannot be represented; see [`raised_size`]. Where no digit is lost, the size is
/// worth the minimum and has the fewest lot steps added for that.
pub fn try_size_at_least_min_notional(
    raw: Decimal,
    price: Price,
    min_notional: Decimal,
    step_size: Decimal,
) -> (result: Option<Decimal>)
    ensures
        result == raised_size(raw, price, min_notional, step_size),
        price.0@ > 0 && min_notional@ > 0 && step_size@ > 0 && raises_exactly(
            raw,
            price,
            min_notional,
            step_size,
        ) ==> result is Some && raised_by_fewest(
            raw@,
            price.0@,
            min_notional@,
            step_size@,
            result->0@,
        ),
{
    if !min_notional.is_positive() || !price.0.is_positive() {
        return Some(raw);
    }
    proof {
        lemma_pow10_positive(28);
        lemma_whole(1);
    }
    let ghost exact = step_size@ > 0 && raises_exactly(raw, price, min_notional, step_size);
    let ghost unit = pow10(28);
    let current = raw.checked_mul(price.0)?;
    if current.is_at_least(min_notional) {
        proof {
            if exact {
                assert(current@ * unit >= min_notional@ * unit) by (nonlinear_arith)
                    requires
                        current@ >= min_notional@,
                        unit >= 1,
                ;
                assert(raw@ == raw@ + 0 * step_size@);
            }
        }
        return Some(raw);
    }
    if !step_size.is_positive() {
        return min_notional.checked_div(price.0);
    }
    let gap = min_notional.checked_sub(current)?;
    let step_value = price.0.checked_mul(step_size)?;
    proof {
        if exact {
            let (v, p, s) = (step_value@, price.0@, step_size@);
            assert(v > 0) by (nonlinear_arith)
                requires
                    v * unit == p * s,
                    p > 0,
                    s > 0,
                    unit >= 1,
            ;
        }
    }
    if !step_value.is_positive() {
        return Some(raw);
    }
    let ratio = gap.checked_div(step_value)?;
    let whole_steps = ratio.floor();
    let ghost k = floor_int(ratio);
    proof {
        lemma_whole(k);
        if exact {
            assert(k >= 0) by (nonlinear_arith)
                requires
                    k * unit >= 0,
                    unit >= 1,
            ;
        }
    }
    let covered = whole_steps.checked_mul(step_value)?;
    proof {
        if exact {
            let (c, v) = (covered@, step_value@);
            assert(c == k * v) by (nonlinear_arith)
                requires
                    c * unit == (k * unit) * v,
                    unit >= 1,
            ;
        }
    }
    let needed_steps = if covered.is_less(gap) {
        whole_steps.checked_add(Decimal::one())?
    } else {
        whole_steps
    };
    let ghost n = if covered@ < gap@ {
        k + 1
    } else {
        k
    };
    proof {
        if exact {
            assert((k + 1) * unit == k * unit + unit) by (nonlinear_arith);
            lemma_whole_arithmetic(k, 1);
            lemma_needed_steps(gap@, step_value@, ratio@, k);
        }
    }
    let added = needed_steps.checked_mul(step_size)?;
    proof {
        if exact {
            let (a, s) = (added@, step_size@);
            assert(a == n * s) by (nonlinear_arith)
                requires
                    a * unit == (n * unit) * s,
                    unit >= 1,
            ;
            lemma_fewest_steps(
                raw@,
                price.0@,
                min_notional@,
                step_size@,
                current@,
                step_value@,
                n,
            );
        }
    }
    raw.checked_add(added)
}

/// Raises a size to the minimum notional; see [`raised_size`].
pub fn size_at_least_min_notional(
    raw: Decimal,
    price: Price,
    min_notional: Decimal,
    step_size: Decimal,
) -> (result: Decimal)
    requires
        raised_size(raw, price, min_notional, step_size) is Some,
    ensures
        raised_size(raw, price, min_notional, step_size) == Some(result),
        price.0@ > 0 && min_notional@ > 0 && step_size@ > 0 && raises_exactly(
            raw,
            price,
            min_notional,
            step_size,
        ) ==> raised_by_fewest(raw@, price.0@, min_notional@, step_size@, result@),
{
    try_size_at_least_min_notional(raw, price, min_notional, step_size).unwrap()
}

/// `notional / price x size_multiplier`, rounded down to the lot step.
pub open spec fn sized(
    notional: Decimal,
    price: Price,
    size_multiplier: Decimal,
    step_size: Decimal,
) -> Option<Decimal> {
    let raw = times(quotient(notional, price.0), Some(size_multiplier));
    match raw {
        None => None,
        Some(_) => stepped(raw, step_size),
    }
}

/// The size of a quote, or `None` where a number it needs cannot be represented;
/// see [`sized`].
pub fn try_quote_size(
    notional: Decimal,
    price: Price,
    size_multiplier: Decimal,
    step_size: Decimal,
) -> (result: Option<Decimal>)
    ensures
        result == sized(notional, price, size_multiplier, step_size),
{
    let raw = notional.checked_div(price.0)?.checked_mul(size_multiplier)?;
    try_stepped(raw, step_size)
}

/// The size of a quote; see [`sized`].
pub fn quote_size(
    notional: Decimal,
    price: Price,
    size_multiplier: Decimal,
    step_size: Decimal,
) -> (result: Decimal)
    requires
        sized(notional, price, size_multiplier, step_size) is Some,
    ensures
        sized(notional, price, size_multiplier, step_size) == Some(result),
{
    try_quote_size(notional, price, size_multiplier, step_size).unwrap()
}

/// A quote is worth its notional times the multiplier at its price, rounded down to whole lots.
pub proof fn law_quote_size_is_worth_the_notional(
    notional: Decimal,
    price: Price,
    size_multiplier: Decimal,
    step_size: Decimal,
    plain: Decimal,
    raw: Decimal,
)
    requires
        quotient(notional, price.0) == Some(plain),
        plain@ * price.0@ == notional@ * pow10(28),
        product(plain, size_multiplier) == Some(raw),
        raw@ * pow10(28) == plain@ * size_multiplier@,
    ensures
        sized(notional, price, size_multiplier, step_size) == stepped(Some(raw), step_size),
        raw@ * price.0@ == notional@ * size_multiplier@,
{
    let (r, q, p, n, m, u) = (
        raw@,
        plain@,
        price.0@,
        notional@,
        size_multiplier@,
        pow10(28),
    );
    lemma_pow10_positive(28);
    assert(u * (r * p) == u * (n * m)) by (nonlinear_arith)
        requires
            q * p == n * u,
            r * u == q * m,
    ;
    assert(r * p == n * m) by (nonlinear_arith)
        requires
            u * (r * p) == u * (n * m),
            u >= 1,
    ;
}

} // verus!
