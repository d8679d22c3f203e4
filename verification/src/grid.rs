//! The venue grid an order has to lie on: ticks, lots and the minimum notional.

use crate::decimal::{
    ceil_of, exact_product, floor_int, floor_of, greater, largest_value, lemma_pow10_positive,
    lesser, magnitude, pow10, product, quotient, rounded, sum, times, whole, Decimal,
};
use crate::market::{maker_order, Price, QuoteIntent, Side, Size, Symbol};
use crate::quoting::make_post_only_intent;
use crate::sizing::{stepped, stepped_up, try_stepped, try_stepped_up};
use vstd::prelude::*;

verus! {

/// A venue grid, with the reciprocals that rounding multiplies by.
#[derive(Clone, Copy, Debug)]
pub struct Grid {
    /// Price increment. Zero means none.
    pub tick_size: Decimal,
    /// Size increment. Zero means none.
    pub step_size: Decimal,
    /// Smallest order value. Zero means none.
    pub min_notional: Decimal,
    /// `1 / tick_size`, or zero where there is no tick.
    pub inv_tick: Decimal,
    /// `1 / step_size`, or zero where there is no step.
    pub inv_step: Decimal,
    /// `min_notional / step_size`, or zero where there is no step.
    pub min_over_step: Decimal,
}

/// `a / b` where `b` is positive, and zero otherwise.
pub open spec fn portion(a: Decimal, b: Decimal) -> Option<Decimal> {
    if b@ > 0 {
        quotient(a, b)
    } else {
        Some(whole(0))
    }
}

fn try_portion(a: Decimal, b: Decimal) -> (result: Option<Decimal>)
    ensures
        result == portion(a, b),
{
    if b.is_positive() {
        a.checked_div(b)
    } else {
        Some(Decimal::zero())
    }
}

/// The grid with these increments and this minimum.
pub open spec fn grid(tick_size: Decimal, step_size: Decimal, min_notional: Decimal) -> Option<
    Grid,
> {
    match (
        portion(whole(1), tick_size),
        portion(whole(1), step_size),
        portion(min_notional, step_size),
    ) {
        (Some(inv_tick), Some(inv_step), Some(min_over_step)) => Some(
            Grid { tick_size, step_size, min_notional, inv_tick, inv_step, min_over_step },
        ),
        _ => None,
    }
}

/// The price on the tick nearest to `price`.
pub open spec fn on_tick(g: Grid, price: Decimal) -> Option<Decimal> {
    if g.inv_tick@ > 0 {
        match product(price, g.inv_tick) {
            None => None,
            Some(ticks) => product(rounded(ticks, 0), g.tick_size),
        }
    } else {
        Some(price)
    }
}

/// The largest size on the lot grid that is not above `size`.
pub open spec fn on_lot(g: Grid, size: Decimal) -> Option<Decimal> {
    if g.inv_step@ > 0 {
        match product(size, g.inv_step) {
            None => None,
            Some(lots) => product(floor_of(lots), g.step_size),
        }
    } else {
        Some(size)
    }
}

/// `size` raised by whole lots until it is worth the minimum notional at `price`;
/// `None` where a lot no longer makes a difference to it.
pub open spec fn raised(g: Grid, price: Decimal, size: Decimal) -> Option<Decimal>
    decreases largest_value() - size@,
{
    match product(size, price) {
        None => None,
        Some(value) => if value@ >= g.min_notional@ {
            Some(size)
        } else {
            match sum(size, g.step_size) {
                None => None,
                Some(next) => if size@ < next@ <= largest_value() {
                    raised(g, price, next)
                } else {
                    None
                },
            }
        },
    }
}

/// `size` where it is worth the minimum notional at `price`, and otherwise the
/// number of lots that is.
pub open spec fn worth_minimum(g: Grid, price: Decimal, size: Decimal) -> Option<Decimal> {
    if g.min_notional@ > 0 && g.step_size@ > 0 && price@ > 0 {
        match product(size, price) {
            None => None,
            Some(value) => if value@ < g.min_notional@ {
                match quotient(g.min_over_step, price) {
                    None => None,
                    Some(lots) => match product(ceil_of(lots), g.step_size) {
                        None => None,
                        Some(needed) => raised(g, price, needed),
                    },
                }
            } else {
                Some(size)
            },
        }
    } else {
        Some(size)
    }
}

/// The price on the tick next to `price` away from the market: up for an ask, down for a
/// bid. Where rounding in the last digits would land on the near side, `price` itself.
pub open spec fn off_market(g: Grid, side: Side, price: Decimal) -> Option<Decimal> {
    match side {
        Side::Ask => match stepped_up(Some(price), g.tick_size) {
            None => None,
            Some(up) => Some(greater(price, up)),
        },
        Side::Bid => match stepped(Some(price), g.tick_size) {
            None => None,
            Some(down) => Some(lesser(price, down)),
        },
    }
}

/// The post-only order for a price on the grid and a wanted size.
pub open spec fn order_at(
    g: Grid,
    symbol: Symbol,
    side: Side,
    price: Option<Decimal>,
    size: Decimal,
) -> Option<QuoteIntent> {
    match (price, on_lot(g, size)) {
        (Some(price), Some(size)) => match worth_minimum(g, price, size) {
            None => None,
            Some(size) => Some(maker_order(symbol, side, price, size)),
        },
        _ => None,
    }
}

/// The post-only order on the grid for a wanted price and size.
pub open spec fn gridded(
    g: Grid,
    symbol: Symbol,
    side: Side,
    price: Decimal,
    size: Decimal,
) -> Option<QuoteIntent> {
    order_at(g, symbol, side, on_tick(g, price), size)
}

/// The post-only order on the grid that is no nearer to the market than `price`.
pub open spec fn gridded_off_market(
    g: Grid,
    symbol: Symbol,
    side: Side,
    price: Decimal,
    size: Decimal,
) -> Option<QuoteIntent> {
    order_at(g, symbol, side, off_market(g, side, price), size)
}

proof fn lemma_counted(a: int, unit: int, inverse: int, count: int)
    requires
        inverse * unit == pow10(28) * pow10(28),
        count * pow10(28) == a * inverse,
    ensures
        count * unit == a * pow10(28),
{
    let p = pow10(28);
    lemma_pow10_positive(28);
    assert(p * (count * unit) == p * (a * p)) by (nonlinear_arith)
        requires
            inverse * unit == p * p,
            count * p == a * inverse,
    ;
    assert(count * unit == a * p) by (nonlinear_arith)
        requires
            p * (count * unit) == p * (a * p),
            p >= 1,
    ;
}

proof fn lemma_near_multiple(
    a: int,
    unit: int,
    inverse: int,
    count: int,
    near: int,
    result: int,
)
    requires
        2 * magnitude(near - count) <= pow10(28),
    ensures
        unit > 0 && inverse * unit == pow10(28) * pow10(28) && count * pow10(28) == a * inverse
            && result * pow10(28) == near * unit ==> 2 * magnitude(result - a) <= unit,
{
    let p = pow10(28);
    lemma_pow10_positive(28);
    if unit > 0 && inverse * unit == p * p && count * p == a * inverse && result * p == near
        * unit {
        lemma_counted(a, unit, inverse, count);
        assert(p * (result - a) == unit * (near - count)) by (nonlinear_arith)
            requires
                result * p == near * unit,
                count * unit == a * p,
        ;
        let (d, e) = (result - a, near - count);
        assert(2 * d <= unit && -2 * d <= unit) by (nonlinear_arith)
            requires
                p * d == unit * e,
                2 * e <= p,
                -2 * e <= p,
                p >= 1,
                unit > 0,
        ;
    }
}

proof fn lemma_multiple_below(
    a: int,
    unit: int,
    inverse: int,
    count: int,
    down: int,
    result: int,
)
    requires
        down <= count < down + pow10(28),
    ensures
        unit > 0 && inverse * unit == pow10(28) * pow10(28) && count * pow10(28) == a * inverse
            && result * pow10(28) == down * unit ==> result <= a < result + unit,
{
    let p = pow10(28);
    lemma_pow10_positive(28);
    if unit > 0 && inverse * unit == p * p && count * p == a * inverse && result * p == down
        * unit {
        lemma_counted(a, unit, inverse, count);
        assert(result <= a < result + unit) by (nonlinear_arith)
            requires
                result * p == down * unit,
                count * unit == a * p,
                down <= count < down + p,
                p >= 1,
                unit > 0,
        ;
    }
}

impl Grid {
    /// The grid with these increments and this minimum, or `None` where a
    /// reciprocal cannot be represented.
    pub fn try_new(tick_size: Decimal, step_size: Decimal, min_notional: Decimal) -> (result: Option<
        Grid,
    >)
        ensures
            result == grid(tick_size, step_size, min_notional),
    {
        let inv_tick = try_portion(Decimal::one(), tick_size)?;
        let inv_step = try_portion(Decimal::one(), step_size)?;
        let min_over_step = try_portion(min_notional, step_size)?;
        Some(Grid { tick_size, step_size, min_notional, inv_tick, inv_step, min_over_step })
    }

    fn try_on_tick(&self, price: Decimal) -> (result: Option<Decimal>)
        ensures
            result == on_tick(*self, price),
            result is Some && self.tick_size@ > 0 && self.inv_tick@ * self.tick_size@ == pow10(28)
                * pow10(28) && exact_product(price, self.inv_tick) && exact_product(
                rounded(product(price, self.inv_tick)->0, 0),
                self.tick_size,
            ) ==> 2 * magnitude(result->0@ - price@) <= self.tick_size@,
    {
        if self.inv_tick.is_positive() {
            let ticks = price.checked_mul(self.inv_tick)?;
            let near = ticks.round();
            let result = near.checked_mul(self.tick_size)?;
            proof {
                lemma_pow10_positive(28);
                lemma_near_multiple(
                    price@,
                    self.tick_size@,
                    self.inv_tick@,
                    ticks@,
                    near@,
                    result@,
                );
            }
            Some(result)
        } else {
            Some(price)
        }
    }

    fn try_off_market(&self, side: Side, price: Decimal) -> (result: Option<Decimal>)
        ensures
            result == off_market(*self, side, price),
    {
        match side {
            Side::Ask => Some(price.max(try_stepped_up(price, self.tick_size)?)),
            Side::Bid => Some(price.min(try_stepped(price, self.tick_size)?)),
        }
    }

    fn try_on_lot(&self, size: Decimal) -> (result: Option<Decimal>)
        ensures
            result == on_lot(*self, size),
            result is Some && self.step_size@ > 0 && self.inv_step@ * self.step_size@ == pow10(28)
                * pow10(28) && exact_product(size, self.inv_step) && exact_product(
                floor_of(product(size, self.inv_step)->0),
                self.step_size,
            ) ==> result->0@ <= size@ < result->0@ + self.step_size@,
    {
        if self.inv_step.is_positive() {
            let lots = size.checked_mul(self.inv_step)?;
            let down = lots.floor();
            let result = down.checked_mul(self.step_size)?;
            proof {
                lemma_pow10_positive(28);
                lemma_multiple_below(
                    size@,
                    self.step_size@,
                    self.inv_step@,
                    lots@,
                    down@,
                    result@,
                );
            }
            Some(result)
        } else {
            Some(size)
        }
    }

    fn try_raised(&self, price: Decimal, size: Decimal) -> (result: Option<Decimal>)
        ensures
            result == raised(*self, price, size),
    {
        let mut needed = size;
        loop
            invariant
                raised(*self, price, size) == raised(*self, price, needed),
            decreases largest_value() - needed@,
        {
            let value = needed.checked_mul(price)?;
            if value.is_at_least(self.min_notional) {
                return Some(needed);
            }
            let next = needed.checked_add(self.step_size)?;
            if next.is_at_most(needed) {
                return None;
            }
            needed = next;
        }
    }

    fn try_worth_minimum(&self, price: Decimal, size: Decimal) -> (result: Option<Decimal>)
        ensures
            result == worth_minimum(*self, price, size),
    {
        if self.min_notional.is_positive() && self.step_size.is_positive() && price.is_positive() {
            let value = size.checked_mul(price)?;
            if value.is_less(self.min_notional) {
                let lots = self.min_over_step.checked_div(price)?.ceil();
                return self.try_raised(price, lots.checked_mul(self.step_size)?);
            }
        }
        Some(size)
    }

    /// The order on the grid, or `None` where it cannot be represented; see
    /// [`gridded`].
    pub fn try_intent(&self, symbol: &Symbol, side: Side, price: Decimal, size: Decimal) -> (result:
        Option<QuoteIntent>)
        ensures
            result == gridded(*self, *symbol, side, price, size),
    {
        let price = self.try_on_tick(price)?;
        self.try_order_at(symbol, side, price, size)
    }

    /// The order on the grid that is no nearer to the market than `price`, or `None` where
    /// it cannot be represented; see [`gridded_off_market`].
    pub fn try_intent_off_market(
        &self,
        symbol: &Symbol,
        side: Side,
        price: Decimal,
        size: Decimal,
    ) -> (result: Option<QuoteIntent>)
        ensures
            result == gridded_off_market(*self, *symbol, side, price, size),
            result matches Some(order) ==> match side {
                Side::Ask => order.price.0@ >= price@,
                Side::Bid => order.price.0@ <= price@,
            },
    {
        let price = self.try_off_market(side, price)?;
        self.try_order_at(symbol, side, price, size)
    }

    fn try_order_at(&self, symbol: &Symbol, side: Side, price: Decimal, size: Decimal) -> (result:
        Option<QuoteIntent>)
        ensures
            result == order_at(*self, *symbol, side, Some(price), size),
    {
        let size = self.try_on_lot(size)?;
        let size = self.try_worth_minimum(price, size)?;
        Some(make_post_only_intent(symbol, side, Price(price), Size(size)))
    }
}

proof fn lemma_raised(g: Grid, price: Decimal, size: Decimal)
    ensures
        raised(g, price, size) matches Some(lots) ==> product(lots, price) is Some && product(
            lots,
            price,
        )->0@ >= g.min_notional@,
    decreases largest_value() - size@,
{
    if let Some(value) = product(size, price) {
        if value@ < g.min_notional@ {
            if let Some(next) = sum(size, g.step_size) {
                if size@ < next@ <= largest_value() {
                    lemma_raised(g, price, next);
                }
            }
        }
    }
}

/// Where the venue has a lot step and a minimum notional, every order on its grid at a
/// positive price is worth at least that minimum.
pub proof fn law_orders_clear_minimum(
    g: Grid,
    symbol: Symbol,
    side: Side,
    price: Decimal,
    size: Decimal,
)
    requires
        g.min_notional@ > 0,
        g.step_size@ > 0,
        price@ > 0,
    ensures
        order_at(g, symbol, side, Some(price), size) matches Some(order) ==> product(
            order.size.0,
            order.price.0,
        ) is Some && product(order.size.0, order.price.0)->0@ >= g.min_notional@,
{
    if let Some(lots) = on_lot(g, size) {
        if let Some(value) = product(lots, price) {
            if value@ < g.min_notional@ {
                if let Some(least) = quotient(g.min_over_step, price) {
                    if let Some(needed) = product(ceil_of(least), g.step_size) {
                        lemma_raised(g, price, needed);
                    }
                }
            }
        }
    }
}

/// An order keeps the side and the instrument it was asked for, and rests.
pub proof fn law_order_terms(g: Grid, symbol: Symbol, side: Side, price: Decimal, size: Decimal)
    ensures
        gridded(g, symbol, side, price, size) matches Some(order) ==> order.side == side
            && order.symbol == symbol && order.tif is PostOnly,
        gridded_off_market(g, symbol, side, price, size) matches Some(order) ==> order.side == side
            && order.symbol == symbol && order.tif is PostOnly,
{
}

/// An order placed off the market never ends up nearer to it than asked for.
pub proof fn law_off_market_holds_out(
    g: Grid,
    symbol: Symbol,
    side: Side,
    price: Decimal,
    size: Decimal,
)
    ensures
        gridded_off_market(g, symbol, side, price, size) matches Some(order) ==> match side {
            Side::Ask => order.price.0@ >= price@,
            Side::Bid => order.price.0@ <= price@,
        },
{
}

/// The grid counts in ticks and in lots: its reciprocals are those of the two increments.
pub proof fn law_grid_holds_the_reciprocals(
    tick_size: Decimal,
    step_size: Decimal,
    min_notional: Decimal,
)
    requires
        tick_size@ > 0,
        step_size@ > 0,
    ensures
        grid(tick_size, step_size, min_notional) matches Some(g) ==> {
            &&& Some(g.inv_tick) == quotient(whole(1), tick_size)
            &&& Some(g.inv_step) == quotient(whole(1), step_size)
            &&& Some(g.min_over_step) == quotient(min_notional, step_size)
            &&& g.tick_size == tick_size && g.step_size == step_size
            &&& g.min_notional == min_notional
        },
{
}

/// A size that is worth the minimum already is not raised, and a smaller one is raised no
/// further than by the lots that it takes from the least number of them.
pub proof fn law_worthy_sizes_are_kept(
    g: Grid,
    price: Decimal,
    size: Decimal,
    value: Decimal,
)
    requires
        product(size, price) == Some(value),
    ensures
        value@ >= g.min_notional@ ==> worth_minimum(g, price, size) == Some(size) && raised(
            g,
            price,
            size,
        ) == Some(size),
        value@ < g.min_notional@ && g.min_notional@ > 0 && g.step_size@ > 0 && price@ > 0
            ==> worth_minimum(g, price, size) == match times(
            Some(ceil_of(quotient(g.min_over_step, price)->0)),
            Some(g.step_size),
        ) {
            Some(needed) => if quotient(g.min_over_step, price) is Some {
                raised(g, price, needed)
            } else {
                None
            },
            None => None,
        },
{
}

/// Prices are rounded to the nearest tick and sizes down to whole lots; without an increment both
/// stay as they are.
pub proof fn law_grid_rounds_prices_and_sizes(g: Grid, a: Decimal, counted: Decimal, lots: Decimal)
    requires
        product(a, g.inv_tick) == Some(counted),
        product(a, g.inv_step) == Some(lots),
    ensures
        g.inv_tick@ > 0 ==> on_tick(g, a) == product(rounded(counted, 0), g.tick_size),
        g.inv_tick@ <= 0 ==> on_tick(g, a) == Some(a),
        g.inv_step@ > 0 ==> on_lot(g, a) == product(whole(floor_int(lots)), g.step_size),
        g.inv_step@ <= 0 ==> on_lot(g, a) == Some(a),
{
}

} // verus!
