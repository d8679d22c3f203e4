//! A constant-mix portfolio as a maker grid.
//!
//! The strategy holds a target fraction of its value in the asset and trades back
//! toward it as the price drifts. At the first book it freezes a lattice of prices
//! around the mid, and at each rung the holding that restores the target there, given
//! that every rung between it and the anchor has filled.
//!
//! The ladder is placed once: a buy at every rung below the anchor and a sell at every
//! rung above, each for the difference of two neighbouring holdings. Orders then rest
//! untouched. A fill is mirrored one rung toward where the price came from, in the same
//! quantity; nothing else moves the lattice.

use crate::decimal::{
    adds_exactly, decimal, difference, exact_difference, greater, lemma_pow10_adds,
    lemma_pow10_positive, lemma_rounded_twice, lemma_whole, magnitude, minus, multiplies_exactly,
    plus, pow10, product, quotient, rounded, subtracts_exactly, sum, times, whole, Decimal,
};
use crate::market::{
    maker_order, opposite, taker_order, MarketEvent, Price, QuoteIntent, Side, Size, Snapshot,
    Symbol, TimeInForce,
};
use crate::quoting::{
    bps_fraction, compute_mid_strict, make_intent, make_post_only_intent, mid_strict,
    try_bps_fraction,
};
use crate::strategy::{all_for, follows, keeps_to, Action, Strategy, StrategyContext};
use vstd::prelude::*;

verus! {

/// Configuration for [`Rebalance`].
#[derive(Clone, Copy, Debug)]
pub struct RebalanceConfig {
    /// Distance from each rung to the next, in bps.
    pub band_bps: u32,
    /// Rungs per side.
    pub levels: u32,
    /// Target fraction of the value held in the asset.
    pub target_asset_frac: Decimal,
    /// Account value at the anchor.
    pub initial_balance: Decimal,
    /// Rungs worth less than this are left out. `0` disables.
    pub min_order_notional: Decimal,
}

/// The default settings.
pub open spec fn rebalance_defaults() -> RebalanceConfig {
    RebalanceConfig {
        band_bps: 50,
        levels: 10,
        target_asset_frac: decimal(5, 1),
        initial_balance: whole(10_000),
        min_order_notional: whole(5),
    }
}

impl Default for RebalanceConfig {
    fn default() -> (result: RebalanceConfig)
        ensures
            result == rebalance_defaults(),
    {
        RebalanceConfig {
            band_bps: 50,
            levels: 10,
            target_asset_frac: Decimal::new(5, 1),
            initial_balance: Decimal::whole(10_000),
            min_order_notional: Decimal::whole(5),
        }
    }
}

/// Constant-mix strategy.
pub struct Rebalance {
    /// Settings.
    pub config: RebalanceConfig,
    /// Mid at which the lattice was frozen.
    pub anchor: Option<Price>,
    /// Prices of the rungs, ascending; the anchor is in the middle.
    pub rung_prices: Vec<Decimal>,
    /// Balanced holding at each rung.
    pub rung_units: Vec<Decimal>,
    /// Whether the ladder has been placed.
    pub ladder_placed: bool,
    /// Orders that the venue refused and that are still to be placed.
    pub rejected: Vec<QuoteIntent>,
}

/// Mathematical content of a [`Rebalance`].
#[verifier::ext_equal]
pub struct RebalanceState {
    /// Settings.
    pub config: RebalanceConfig,
    /// Mid at which the lattice was frozen.
    pub anchor: Option<Price>,
    /// Prices of the rungs, ascending; the anchor is in the middle.
    pub rung_prices: Seq<Decimal>,
    /// Balanced holding at each rung.
    pub rung_units: Seq<Decimal>,
    /// Whether the ladder has been placed.
    pub ladder_placed: bool,
    /// Orders that the venue refused and that are still to be placed.
    pub rejected: Seq<QuoteIntent>,
}

impl View for Rebalance {
    type V = RebalanceState;

    open spec fn view(&self) -> RebalanceState {
        RebalanceState {
            config: self.config,
            anchor: self.anchor,
            rung_prices: self.rung_prices@,
            rung_units: self.rung_units@,
            ladder_placed: self.ladder_placed,
            rejected: self.rejected@,
        }
    }
}

/// Price, balanced holding and cash at one rung.
#[derive(Clone, Copy, Debug)]
pub struct Rung {
    /// Price.
    pub price: Decimal,
    /// Balanced holding.
    pub units: Decimal,
    /// Cash left.
    pub cash: Decimal,
}

/// `a` rounded to ten places, where there is an `a`.
pub open spec fn to_ten_places(a: Option<Decimal>) -> Option<Decimal> {
    match a {
        Some(a) => Some(rounded(a, 10)),
        None => None,
    }
}

/// The anchor rung: the balance split by the target.
pub open spec fn anchor_rung(config: RebalanceConfig, p0: Decimal) -> Option<Rung> {
    let w = config.target_asset_frac;
    let v0 = config.initial_balance;
    match (
        match product(v0, w) {
            Some(value) => to_ten_places(quotient(value, p0)),
            None => None,
        },
        to_ten_places(times(Some(v0), difference(whole(1), w))),
    ) {
        (Some(units), Some(cash)) => Some(Rung { price: p0, units, cash }),
        _ => None,
    }
}

/// The rung one step further down: the asset is bought until it has its target share.
pub open spec fn rung_below(config: RebalanceConfig, from: Rung) -> Option<Rung> {
    let w = config.target_asset_frac;
    let down = minus(Some(whole(1)), bps_fraction(config.band_bps as int));
    match to_ten_places(times(Some(from.price), down)) {
        None => None,
        Some(price) => {
            let held = product(from.units, price);
            let spent = to_ten_places(
                minus(times(Some(w), plus(Some(from.cash), held)), held),
            );
            match spent {
                None => None,
                Some(spent) => match (
                    to_ten_places(quotient(spent, price)),
                    to_ten_places(difference(from.cash, spent)),
                ) {
                    (Some(size), Some(cash)) => match sum(from.units, size) {
                        None => None,
                        Some(units) => Some(Rung { price, units, cash }),
                    },
                    _ => None,
                },
            }
        },
    }
}

/// The rung one step further up: the asset is sold until it has its target share.
pub open spec fn rung_above(config: RebalanceConfig, from: Rung) -> Option<Rung> {
    let w = config.target_asset_frac;
    let up = plus(Some(whole(1)), bps_fraction(config.band_bps as int));
    match to_ten_places(times(Some(from.price), up)) {
        None => None,
        Some(price) => {
            let held = product(from.units, price);
            let earned = to_ten_places(
                minus(held, times(Some(w), plus(Some(from.cash), held))),
            );
            match earned {
                None => None,
                Some(earned) => match (
                    to_ten_places(quotient(earned, price)),
                    to_ten_places(sum(from.cash, earned)),
                ) {
                    (Some(size), Some(cash)) => match difference(from.units, size) {
                        None => None,
                        Some(units) => Some(Rung { price, units, cash }),
                    },
                    _ => None,
                },
            }
        },
    }
}

/// Whether the price of the next rung is clearly another one: no digit of the step is lost
/// before rounding, and the step is at least a unit in the tenth decimal place.
pub open spec fn steps_clearly(config: RebalanceConfig, from: Rung, up: bool) -> bool {
    let band = bps_fraction(config.band_bps as int)->0;
    &&& from.price@ * config.band_bps >= 10_000 * pow10(18)
    &&& if up {
        adds_exactly(whole(1), band) && multiplies_exactly(from.price, sum(whole(1), band)->0)
    } else {
        subtracts_exactly(whole(1), band) && multiplies_exactly(
            from.price,
            difference(whole(1), band)->0,
        )
    }
}

/// Whether all steps of the lattice are clear; see [`steps_clearly`].
pub open spec fn lattice_is_clear(config: RebalanceConfig, p0: Decimal) -> bool {
    forall|up: bool, k: int|
        0 <= k < config.levels ==> steps_clearly(
            config,
            (#[trigger] rung_at(config, p0, up, k as nat))->0,
            up,
        )
}

/// Whether the rungs ascend in price, so that no two of them share one.
pub open spec fn rungs_ascend(prices: Seq<Decimal>) -> bool {
    forall|i: int, j: int|
        0 <= i < j < prices.len() ==> (#[trigger] prices[i])@ < (#[trigger] prices[j])@
}

/// The rung `k` steps from the anchor, up or down.
pub open spec fn rung_at(config: RebalanceConfig, p0: Decimal, up: bool, k: nat) -> Option<Rung>
    decreases k,
{
    if k == 0 {
        anchor_rung(config, p0)
    } else {
        match rung_at(config, p0, up, (k - 1) as nat) {
            None => None,
            Some(from) => if up {
                rung_above(config, from)
            } else {
                rung_below(config, from)
            },
        }
    }
}

/// The rung at index `i` of the lattice.
pub open spec fn lattice_rung(config: RebalanceConfig, p0: Decimal, i: int) -> Option<Rung> {
    let n = config.levels as int;
    if i < n {
        rung_at(config, p0, false, (n - i) as nat)
    } else {
        rung_at(config, p0, true, (i - n) as nat)
    }
}

/// Whether every rung of the lattice can be represented.
pub open spec fn lattice_exists(config: RebalanceConfig, p0: Decimal) -> bool {
    &&& 2 * config.levels + 1 <= usize::MAX
    &&& rung_at(config, p0, false, config.levels as nat) is Some
    &&& rung_at(config, p0, true, config.levels as nat) is Some
}

/// The state with the lattice frozen at a mid.
pub open spec fn seeded(state: RebalanceState, anchor: Price) -> Option<RebalanceState> {
    let p0 = anchor.0;
    let len = (2 * state.config.levels + 1) as nat;
    if lattice_exists(state.config, p0) {
        Some(
            RebalanceState {
                anchor: Some(anchor),
                rung_prices: Seq::new(
                    len,
                    |i: int| lattice_rung(state.config, p0, i)->0.price,
                ),
                rung_units: Seq::new(len, |i: int| lattice_rung(state.config, p0, i)->0.units),
                ..state
            },
        )
    } else {
        None
    }
}

/// What an order on this side of a rung trades: the difference to the holding one rung
/// closer to where its mirror goes.
pub open spec fn rung_gap(units: Seq<Decimal>, side: Side, i: int) -> Option<Decimal> {
    let gap = match side {
        Side::Bid => if i + 1 < units.len() {
            difference(units[i], units[i + 1])
        } else {
            None
        },
        Side::Ask => if 0 < i < units.len() {
            difference(units[i - 1], units[i])
        } else {
            None
        },
    };
    match gap {
        None => None,
        Some(gap) => Some(rounded(gap, 8)),
    }
}

/// The order of the ladder at one rung; the inner `None` is a rung without one.
pub open spec fn ladder_order(state: RebalanceState, symbol: Symbol, i: int) -> Option<
    Option<Action>,
> {
    let price = state.rung_prices[i];
    let n = state.config.levels as int;
    let side = if i < n {
        Side::Bid
    } else {
        Side::Ask
    };
    if price@ <= 0 || i == n || (i < n && i + 1 >= state.rung_prices.len()) {
        Some(None)
    } else {
        match rung_gap(state.rung_units, side, i) {
            None => None,
            Some(size) => if size@ <= 0 {
                Some(None)
            } else if state.config.min_order_notional@ > 0 {
                match product(size, price) {
                    None => None,
                    Some(value) => Some(
                        if value@ < state.config.min_order_notional@ {
                            None
                        } else {
                            Some(Action::Quote(maker_order(symbol, side, price, size)))
                        },
                    ),
                }
            } else {
                Some(Some(Action::Quote(maker_order(symbol, side, price, size))))
            },
        }
    }
}

/// The orders of the ladder at the first `n` rungs.
pub open spec fn ladder_orders(state: RebalanceState, symbol: Symbol, n: nat) -> Option<Seq<Action>>
    decreases n,
{
    if n == 0 {
        Some(Seq::empty())
    } else {
        match ladder_orders(state, symbol, (n - 1) as nat) {
            None => None,
            Some(orders) => match ladder_order(state, symbol, n - 1) {
                None => None,
                Some(None) => Some(orders),
                Some(Some(order)) => Some(orders.push(order)),
            },
        }
    }
}

/// The index of the first of `n` rungs at this price.
pub open spec fn rung_index(prices: Seq<Decimal>, price: Decimal, n: nat) -> Option<int>
    decreases n,
{
    if n == 0 {
        None
    } else {
        match rung_index(prices, price, (n - 1) as nat) {
            Some(i) => Some(i),
            None => if prices[n - 1]@ == price@ {
                Some(n - 1)
            } else {
                None
            },
        }
    }
}

/// The rung that a fill is mirrored to.
pub open spec fn mirror_rung(side: Side, i: int) -> int {
    match side {
        Side::Bid => i + 1,
        Side::Ask => i - 1,
    }
}

/// The mirror of a fill: the same quantity on the other side, one rung over. Nothing
/// where the fill is at no rung, at the end of the lattice, or larger than what the
/// rung trades.
pub open spec fn mirrored(
    state: RebalanceState,
    symbol: Symbol,
    fill_price: Decimal,
    side: Side,
    qty: Decimal,
) -> Option<Seq<Action>> {
    let len = state.rung_prices.len();
    let size = rounded(qty, 8);
    match rung_index(state.rung_prices, fill_price, len) {
        None => Some(Seq::empty()),
        Some(i) => if size@ <= 0 || !(0 <= mirror_rung(side, i) < len) {
            Some(Seq::empty())
        } else {
            match rung_gap(state.rung_units, side, i) {
                None => None,
                Some(gap) => match sum(gap, decimal(1, 8)) {
                    None => None,
                    Some(most) => Some(
                        if size@ > most@ {
                            Seq::empty()
                        } else {
                            seq![
                                Action::Quote(
                                    maker_order(
                                        symbol,
                                        opposite(side),
                                        state.rung_prices[mirror_rung(side, i)],
                                        size,
                                    ),
                                ),
                            ]
                        },
                    ),
                },
            }
        },
    }
}

/// Whether a refused order would rest now.
pub open spec fn would_rest(snapshot: Snapshot, intent: QuoteIntent) -> bool {
    match intent.side {
        Side::Bid => snapshot.asks@.len() > 0 && intent.price.0@ < snapshot.asks@[0].price.0@,
        Side::Ask => snapshot.bids@.len() > 0 && intent.price.0@ > snapshot.bids@[0].price.0@,
    }
}

/// Of the refused orders, those that still would not rest, and quotes for the others.
pub open spec fn revived(rejected: Seq<QuoteIntent>, snapshot: Snapshot) -> (
    Seq<QuoteIntent>,
    Seq<Action>,
)
    decreases rejected.len(),
{
    if rejected.len() == 0 {
        (Seq::empty(), Seq::empty())
    } else {
        let (left, quotes) = revived(rejected.drop_last(), snapshot);
        if would_rest(snapshot, rejected.last()) {
            (left, quotes.push(Action::Quote(rejected.last())))
        } else {
            (left.push(rejected.last()), quotes)
        }
    }
}

/// The order that opens what the anchor holding still lacks; the inner `None` is
/// nothing to open.
pub open spec fn opening_order(state: RebalanceState, ctx: StrategyContext, mid: Decimal) -> Option<
    Option<Action>,
> {
    let n = state.config.levels as int;
    let a0 = if n < state.rung_units.len() {
        state.rung_units[n]
    } else {
        whole(0)
    };
    let floor = greater(state.config.min_order_notional, whole(1));
    match difference(a0, ctx.position.size.0) {
        None => None,
        Some(lacking) => {
            let size = rounded(lacking, 8);
            if size@ <= 0 {
                Some(None)
            } else {
                match product(size, mid) {
                    None => None,
                    Some(value) => if value@ < floor@ {
                        Some(None)
                    } else {
                        let ask = if ctx.latest_book.asks@.len() > 0 {
                            ctx.latest_book.asks@[0].price.0
                        } else {
                            mid
                        };
                        match product(ask, decimal(101, 2)) {
                            None => None,
                            Some(limit) => Some(
                                Some(
                                    Action::Quote(
                                        taker_order(
                                            *ctx.symbol,
                                            Side::Bid,
                                            rounded(limit, 8),
                                            size,
                                        ),
                                    ),
                                ),
                            ),
                        }
                    },
                }
            }
        },
    }
}

/// What a book update does once the lattice is frozen.
pub open spec fn book_step(
    state: RebalanceState,
    ctx: StrategyContext,
    snapshot: Snapshot,
    mid: Decimal,
) -> Option<(RebalanceState, Seq<Action>)> {
    if state.ladder_placed {
        let (left, quotes) = revived(state.rejected, snapshot);
        Some((RebalanceState { rejected: left, ..state }, quotes))
    } else {
        match opening_order(state, ctx, mid) {
            None => None,
            Some(Some(order)) => Some((state, seq![order])),
            Some(None) => match ladder_orders(state, *ctx.symbol, state.rung_prices.len()) {
                None => None,
                Some(orders) => Some((RebalanceState { ladder_placed: true, ..state }, orders)),
            },
        }
    }
}

/// The state and actions that an event calls for.
pub open spec fn rebalance_step(
    state: RebalanceState,
    ctx: StrategyContext,
    event: MarketEvent,
) -> Option<(RebalanceState, Seq<Action>)> {
    match event {
        MarketEvent::BookUpdate { snapshot } => match mid_strict(snapshot) {
            None => None,
            Some(None) => Some((state, Seq::empty())),
            Some(Some(mid)) => if state.anchor is Some {
                book_step(state, ctx, snapshot, mid.0)
            } else {
                match seeded(state, mid) {
                    None => None,
                    Some(seeded) => book_step(seeded, ctx, snapshot, mid.0),
                }
            },
        },
        MarketEvent::Fill(fill) => if state.ladder_placed {
            match mirrored(state, *ctx.symbol, fill.price.0, fill.side, fill.size.0) {
                None => None,
                Some(actions) => Some((state, actions)),
            }
        } else {
            Some((state, Seq::empty()))
        },
        _ => Some((state, Seq::empty())),
    }
}

proof fn lemma_rungs_fail(config: RebalanceConfig, p0: Decimal, up: bool, less: nat, more: nat)
    requires
        less <= more,
        rung_at(config, p0, up, less) is None,
    ensures
        rung_at(config, p0, up, more) is None,
    decreases more,
{
    if less < more {
        lemma_rungs_fail(config, p0, up, less, (more - 1) as nat);
    }
}

proof fn lemma_ladder_fails(state: RebalanceState, symbol: Symbol, less: nat, more: nat)
    requires
        less <= more,
        ladder_orders(state, symbol, less) is None,
    ensures
        ladder_orders(state, symbol, more) is None,
    decreases more,
{
    if less < more {
        lemma_ladder_fails(state, symbol, less, (more - 1) as nat);
    }
}

proof fn lemma_rung_found(prices: Seq<Decimal>, price: Decimal, less: nat, more: nat)
    requires
        less <= more,
        rung_index(prices, price, less) is Some,
    ensures
        rung_index(prices, price, more) == rung_index(prices, price, less),
    decreases more,
{
    if less < more {
        lemma_rung_found(prices, price, less, (more - 1) as nat);
    }
}

proof fn lemma_step(price: int, bps: int, stepped: int, factor: int)
    requires
        magnitude(price * bps) >= 10_000 * pow10(18),
        factor == pow10(28) - bps * pow10(24),
        stepped * pow10(28) == price * factor,
    ensures
        price * bps >= 0 ==> price - stepped >= pow10(18),
        price * bps <= 0 ==> stepped - price >= pow10(18),
{
    let (p, q, u) = (pow10(28), pow10(24), pow10(18));
    lemma_pow10_positive(24);
    lemma_pow10_adds(4, 24);
    assert(pow10(4) == 10_000) by {
        reveal_with_fuel(pow10, 5);
    }
    assert((price - stepped) * p == (price * bps) * q) by (nonlinear_arith)
        requires
            stepped * p == price * factor,
            factor == p - bps * q,
    ;
    let off = price - stepped;
    assert(off * 10_000 == price * bps) by (nonlinear_arith)
        requires
            off * p == (price * bps) * q,
            p == 10_000 * q,
            q >= 1,
    ;
}

fn find_rung(prices: &Vec<Decimal>, price: Decimal) -> (result: Option<usize>)
    ensures
        match result {
            Some(i) => i < prices@.len() && rung_index(prices@, price, prices@.len()) == Some(
                i as int,
            ),
            None => rung_index(prices@, price, prices@.len()) is None,
        },
{
    let mut i: usize = 0;
    while i < prices.len()
        invariant
            i <= prices@.len(),
            rung_index(prices@, price, i as nat) is None,
        decreases prices@.len() - i,
    {
        if prices[i].equals(price) {
            proof {
                lemma_rung_found(prices@, price, (i + 1) as nat, prices@.len());
            }
            return Some(i);
        }
        i = i + 1;
    }
    None
}

impl Rebalance {
    /// Rungs per side.
    pub fn n(&self) -> (result: usize)
        ensures
            result == self.config.levels,
    {
        self.config.levels as usize
    }

    fn try_anchor_rung(&self, p0: Decimal) -> (result: Option<Rung>)
        ensures
            result == anchor_rung(self.config, p0),
    {
        let w = self.config.target_asset_frac;
        let v0 = self.config.initial_balance;
        let units = v0.checked_mul(w)?.checked_div(p0)?.round_dp(10);
        let cash = v0.checked_mul(Decimal::one().checked_sub(w)?)?.round_dp(10);
        Some(Rung { price: p0, units, cash })
    }

    fn try_rung_below(&self, from: Rung) -> (result: Option<Rung>)
        ensures
            result == rung_below(self.config, from),
            result is Some && steps_clearly(self.config, from, false) ==> result->0.price@
                < from.price@,
    {
        let w = self.config.target_asset_frac;
        let band = try_bps_fraction(self.config.band_bps)?;
        let down = Decimal::one().checked_sub(band)?;
        let exact_price = from.price.checked_mul(down)?;
        let price = exact_price.round_dp(10);
        proof {
            lemma_whole(1);
            lemma_pow10_positive(18);
            if steps_clearly(self.config, from, false) {
                lemma_step(
                    from.price@,
                    self.config.band_bps as int,
                    exact_price@,
                    pow10(28) - self.config.band_bps * pow10(24),
                );
            }
        }
        let held = from.units.checked_mul(price)?;
        let value = from.cash.checked_add(held)?;
        let spent = w.checked_mul(value)?.checked_sub(held)?.round_dp(10);
        let size = spent.checked_div(price)?.round_dp(10);
        let cash = from.cash.checked_sub(spent)?.round_dp(10);
        Some(Rung { price, units: from.units.checked_add(size)?, cash })
    }

    fn try_rung_above(&self, from: Rung) -> (result: Option<Rung>)
        ensures
            result == rung_above(self.config, from),
            result is Some && steps_clearly(self.config, from, true) ==> result->0.price@
                > from.price@,
    {
        let w = self.config.target_asset_frac;
        let band = try_bps_fraction(self.config.band_bps)?;
        let up = Decimal::one().checked_add(band)?;
        let exact_price = from.price.checked_mul(up)?;
        let price = exact_price.round_dp(10);
        proof {
            lemma_whole(1);
            lemma_pow10_positive(18);
            if steps_clearly(self.config, from, true) {
                let (x, b, q) = (from.price@, self.config.band_bps as int, pow10(24));
                assert(x * (-b) == -(x * b) && (-b) * q == -(b * q)) by (nonlinear_arith);
                lemma_step(
                    from.price@,
                    -(self.config.band_bps as int),
                    exact_price@,
                    pow10(28) + self.config.band_bps * pow10(24),
                );
            }
        }
        let held = from.units.checked_mul(price)?;
        let value = from.cash.checked_add(held)?;
        let earned = held.checked_sub(w.checked_mul(value)?)?.round_dp(10);
        let size = earned.checked_div(price)?.round_dp(10);
        let cash = from.cash.checked_add(earned)?.round_dp(10);
        Some(Rung { price, units: from.units.checked_sub(size)?, cash })
    }

    fn try_rungs(&self, p0: Decimal, up: bool) -> (result: Option<Vec<Rung>>)
        ensures
            match result {
                Some(rungs) => rungs@.len() == self.config.levels + 1 && forall|k: int|
                    0 <= k <= self.config.levels ==> rung_at(self.config, p0, up, k as nat) == Some(
                        #[trigger] rungs@[k],
                    ),
                None => rung_at(self.config, p0, up, self.config.levels as nat) is None,
            },
            result is Some && lattice_is_clear(self.config, p0) ==> forall|j: int, k: int|
                0 <= j < k <= self.config.levels ==> if up {
                    (#[trigger] result->0@[j]).price@ < (#[trigger] result->0@[k]).price@
                } else {
                    result->0@[j].price@ > result->0@[k].price@
                },
    {
        let n: u32 = self.config.levels;
        proof {
            if rung_at(self.config, p0, up, 0) is None {
                lemma_rungs_fail(self.config, p0, up, 0, n as nat);
            }
        }
        let first = self.try_anchor_rung(p0)?;
        let mut rungs: Vec<Rung> = Vec::new();
        let mut last = first;
        rungs.push(first);
        let mut k: u32 = 0;
        while k < n
            invariant
                k <= n,
                n == self.config.levels,
                rungs@.len() == k + 1,
                last == rungs@[k as int],
                forall|j: int|
                    0 <= j <= k ==> rung_at(self.config, p0, up, j as nat) == Some(
                        #[trigger] rungs@[j],
                    ),
                lattice_is_clear(self.config, p0) ==> forall|i: int, j: int|
                    0 <= i < j <= k ==> if up {
                        (#[trigger] rungs@[i]).price@ < (#[trigger] rungs@[j]).price@
                    } else {
                        rungs@[i].price@ > rungs@[j].price@
                    },
            decreases n - k,
        {
            assert(rung_at(self.config, p0, up, k as nat) == Some(rungs@[k as int]));
            proof {
                if rung_at(self.config, p0, up, (k + 1) as nat) is None {
                    lemma_rungs_fail(self.config, p0, up, (k + 1) as nat, n as nat);
                }
            }
            last = if up {
                self.try_rung_above(last)?
            } else {
                self.try_rung_below(last)?
            };
            rungs.push(last);
            k = k + 1;
        }
        Some(rungs)
    }

    /// Freezes the lattice at a mid, or returns `None` where a rung of it cannot be
    /// represented.
    pub fn try_seed(&mut self, anchor: Price) -> (result: Option<()>)
        ensures
            match seeded(old(self)@, anchor) {
                Some(next) => result is Some && final(self)@ == next,
                None => result is None && *final(self) == *old(self),
            },
            result is Some && lattice_is_clear(old(self).config, anchor.0) ==> rungs_ascend(
                final(self)@.rung_prices,
            ),
    {
        let n: usize = self.config.levels as usize;
        let twice: usize = match n.checked_mul(2) {
            Some(twice) => twice,
            None => {
                return None;
            },
        };
        if twice == usize::MAX {
            return None;
        }
        let below = match self.try_rungs(anchor.0, false) {
            Some(below) => below,
            None => {
                return None;
            },
        };
        let above = match self.try_rungs(anchor.0, true) {
            Some(above) => above,
            None => {
                return None;
            },
        };
        let ghost config = self.config;
        proof {
            assert(below@[0] == above@[0]) by {
                assert(rung_at(config, anchor.0, false, 0) == Some(below@[0]));
                assert(rung_at(config, anchor.0, true, 0) == Some(above@[0]));
            }
        }
        let mut prices: Vec<Decimal> = Vec::new();
        let mut units: Vec<Decimal> = Vec::new();
        let mut i: usize = 0;
        while i <= twice
            invariant
                i <= twice + 1,
                twice == 2 * n,
                twice < usize::MAX,
                n == config.levels,
                below@.len() == n + 1,
                above@.len() == n + 1,
                forall|k: int|
                    0 <= k <= n ==> rung_at(config, anchor.0, false, k as nat) == Some(
                        #[trigger] below@[k],
                    ),
                forall|k: int|
                    0 <= k <= n ==> rung_at(config, anchor.0, true, k as nat) == Some(
                        #[trigger] above@[k],
                    ),
                forall|j: int|
                    0 <= j < i ==> #[trigger] prices@[j] == (if j < n {
                        below@[n - j].price
                    } else {
                        above@[j - n].price
                    }),
                prices@ =~= Seq::new(
                    i as nat,
                    |j: int| lattice_rung(config, anchor.0, j)->0.price,
                ),
                units@ =~= Seq::new(i as nat, |j: int| lattice_rung(config, anchor.0, j)->0.units),
            decreases twice + 1 - i,
        {
            let rung = if i < n {
                below[n - i]
            } else {
                above[i - n]
            };
            assert(lattice_rung(config, anchor.0, i as int) == Some(rung));
            prices.push(rung.price);
            units.push(rung.units);
            i = i + 1;
        }
        proof {
            if lattice_is_clear(config, anchor.0) {
                assert forall|a: int, b: int| 0 <= a < b < prices@.len() implies (
                #[trigger] prices@[a])@ < (#[trigger] prices@[b])@ by {
                    if b < n {
                        assert(below@[n - b].price@ > below@[n - a].price@);
                    } else if a < n {
                        assert(below@[0].price@ > below@[n - a].price@);
                        assert(b == n || above@[0].price@ < above@[b - n].price@);
                    } else {
                        assert(above@[a - n].price@ < above@[b - n].price@);
                    }
                }
            }
        }
        self.rung_prices = prices;
        self.rung_units = units;
        self.anchor = Some(anchor);
        assert(rung_at(config, anchor.0, false, n as nat) == Some(below@[n as int]));
        assert(rung_at(config, anchor.0, true, n as nat) == Some(above@[n as int]));
        Some(())
    }

    /// Freezes the lattice at a mid.
    pub fn seed(&mut self, anchor: Price)
        requires
            seeded(old(self)@, anchor) is Some,
        ensures
            Some(final(self)@) == seeded(old(self)@, anchor),
            lattice_is_clear(old(self).config, anchor.0) ==> rungs_ascend(final(self)@.rung_prices),
    {
        let _ = self.try_seed(anchor);
    }

    fn try_rung_gap(&self, side: Side, i: usize) -> (result: Option<Decimal>)
        ensures
            result == rung_gap(self.rung_units@, side, i as int),
    {
        let gap = match side {
            Side::Bid => if i < self.rung_units.len() && i + 1 < self.rung_units.len() {
                self.rung_units[i].checked_sub(self.rung_units[i + 1])?
            } else {
                return None;
            },
            Side::Ask => if 0 < i && i < self.rung_units.len() {
                self.rung_units[i - 1].checked_sub(self.rung_units[i])?
            } else {
                return None;
            },
        };
        Some(gap.round_dp(8))
    }

    fn try_ladder_order(&self, symbol: &Symbol, i: usize) -> (result: Option<Option<Action>>)
        requires
            i < self.rung_prices@.len(),
        ensures
            result == ladder_order(self@, *symbol, i as int),
    {
        let price = self.rung_prices[i];
        let n: usize = self.n();
        if !price.is_positive() || i == n || (i < n && i + 1 >= self.rung_prices.len()) {
            return Some(None);
        }
        let side = if i < n {
            Side::Bid
        } else {
            Side::Ask
        };
        let size = self.try_rung_gap(side, i)?;
        if !size.is_positive() {
            return Some(None);
        }
        let least = self.config.min_order_notional;
        if least.is_positive() && size.checked_mul(price)?.is_less(least) {
            return Some(None);
        }
        Some(Some(Action::Quote(make_post_only_intent(symbol, side, Price(price), Size(size)))))
    }

    fn initial_ladder(&self, symbol: &Symbol) -> (result: Option<Vec<Action>>)
        ensures
            match ladder_orders(self@, *symbol, self.rung_prices@.len()) {
                Some(orders) => result is Some && result->0@ =~= orders,
                None => result is None,
            },
    {
        let mut orders: Vec<Action> = Vec::new();
        let mut i: usize = 0;
        while i < self.rung_prices.len()
            invariant
                i <= self.rung_prices@.len(),
                ladder_orders(self@, *symbol, i as nat) == Some(orders@),
            decreases self.rung_prices@.len() - i,
        {
            proof {
                if ladder_orders(self@, *symbol, (i + 1) as nat) is None {
                    lemma_ladder_fails(
                        self@,
                        *symbol,
                        (i + 1) as nat,
                        self.rung_prices@.len(),
                    );
                }
            }
            if let Some(order) = self.try_ladder_order(symbol, i)? {
                orders.push(order);
            }
            i = i + 1;
        }
        Some(orders)
    }

    /// The mirror of a fill, or `None` where a number it needs cannot be represented; see
    /// [`mirrored`].
    pub fn try_mirror(&self, symbol: &Symbol, fill_price: Decimal, side: Side, qty: Decimal)
        -> (result: Option<Vec<Action>>)
        ensures
            match mirrored(self@, *symbol, fill_price, side, qty) {
                Some(actions) => result is Some && result->0@ =~= actions,
                None => result is None,
            },
    {
        let i: usize = match find_rung(&self.rung_prices, fill_price) {
            Some(i) => i,
            None => {
                return Some(Vec::new());
            },
        };
        let size = qty.round_dp(8);
        if !size.is_positive() {
            return Some(Vec::new());
        }
        let target: usize = match side {
            Side::Bid => if i < self.rung_prices.len() && i + 1 < self.rung_prices.len() {
                i + 1
            } else {
                return Some(Vec::new());
            },
            Side::Ask => if i >= 1 {
                i - 1
            } else {
                return Some(Vec::new());
            },
        };
        let gap = self.try_rung_gap(side, i)?;
        let most = gap.checked_add(Decimal::new(1, 8))?;
        if size.is_more(most) {
            return Some(Vec::new());
        }
        let price = Price(self.rung_prices[target]);
        let mirror = make_post_only_intent(symbol, side.opposite(), price, Size(size));
        Some(vec![Action::Quote(mirror)])
    }

    /// The mirror of a fill; see [`mirrored`].
    pub fn mirror(&self, symbol: &Symbol, fill_price: Decimal, side: Side, qty: Decimal) -> (result:
        Vec<Action>)
        requires
            mirrored(self@, *symbol, fill_price, side, qty) is Some,
        ensures
            Some(result@) == mirrored(self@, *symbol, fill_price, side, qty),
    {
        self.try_mirror(symbol, fill_price, side, qty).unwrap()
    }

    fn revive(&mut self, snapshot: &Snapshot) -> (result: Vec<Action>)
        ensures
            final(self)@ == (RebalanceState {
                rejected: revived(old(self).rejected@, *snapshot).0,
                ..old(self)@
            }),
            result@ =~= revived(old(self).rejected@, *snapshot).1,
    {
        let ghost all = self.rejected@;
        let mut left: Vec<QuoteIntent> = Vec::new();
        let mut quotes: Vec<Action> = Vec::new();
        let mut i: usize = 0;
        while i < self.rejected.len()
            invariant
                all == self.rejected@,
                *self == *old(self),
                i <= all.len(),
                left@ =~= revived(all.take(i as int), *snapshot).0,
                quotes@ =~= revived(all.take(i as int), *snapshot).1,
            decreases all.len() - i,
        {
            assert(all.take(i + 1).drop_last() =~= all.take(i as int));
            assert(all.take(i + 1).last() == all[i as int]);
            let intent = self.rejected[i].clone();
            let rests = match intent.side {
                Side::Bid => snapshot.asks.len() > 0 && intent.price.0.is_less(
                    snapshot.asks[0].price.0,
                ),
                Side::Ask => snapshot.bids.len() > 0 && intent.price.0.is_more(
                    snapshot.bids[0].price.0,
                ),
            };
            if rests {
                quotes.push(Action::Quote(intent));
            } else {
                left.push(intent);
            }
            i = i + 1;
        }
        assert(all.take(i as int) =~= all);
        self.rejected = left;
        quotes
    }

    fn try_opening_order(&self, ctx: &StrategyContext<'_>, mid: Decimal) -> (result: Option<
        Option<Action>,
    >)
        ensures
            result == opening_order(self@, *ctx, mid),
    {
        let n: usize = self.n();
        let a0 = if n < self.rung_units.len() {
            self.rung_units[n]
        } else {
            Decimal::zero()
        };
        let floor = self.config.min_order_notional.max(Decimal::one());
        let size = a0.checked_sub(ctx.position.size.0)?.round_dp(8);
        if !size.is_positive() || size.checked_mul(mid)?.is_less(floor) {
            return Some(None);
        }
        let ask = if ctx.latest_book.asks.len() > 0 {
            ctx.latest_book.asks[0].price.0
        } else {
            mid
        };
        let limit = Price(ask.checked_mul(Decimal::new(101, 2))?.round_dp(8));
        let open = make_intent(ctx.symbol, Side::Bid, limit, Size(size), TimeInForce::IOC);
        Some(Some(Action::Quote(open)))
    }

    fn on_book(&mut self, ctx: &StrategyContext<'_>, snapshot: &Snapshot, mid: Decimal) -> (result:
        Option<Vec<Action>>)
        ensures
            follows(book_step(old(self)@, *ctx, *snapshot, mid), result, final(self)@),
    {
        if self.ladder_placed {
            return Some(self.revive(snapshot));
        }
        if let Some(order) = self.try_opening_order(ctx, mid)? {
            return Some(vec![order]);
        }
        let orders = self.initial_ladder(ctx.symbol)?;
        self.ladder_placed = true;
        Some(orders)
    }
}

impl Strategy for Rebalance {
    type Config = RebalanceConfig;

    open spec fn initial(config: RebalanceConfig) -> Option<RebalanceState> {
        Some(
            RebalanceState {
                config,
                anchor: None,
                rung_prices: Seq::empty(),
                rung_units: Seq::empty(),
                ladder_placed: false,
                rejected: Seq::empty(),
            },
        )
    }

    open spec fn event_step(
        state: RebalanceState,
        ctx: StrategyContext,
        event: MarketEvent,
    ) -> Option<(RebalanceState, Seq<Action>)> {
        rebalance_step(state, ctx, event)
    }

    open spec fn rejection_step(
        state: RebalanceState,
        ctx: StrategyContext,
        intent: QuoteIntent,
        reason: Seq<char>,
    ) -> Option<(RebalanceState, Seq<Action>)> {
        Some(
            (
                if state.ladder_placed && intent.tif is PostOnly {
                    RebalanceState { rejected: state.rejected.push(intent), ..state }
                } else {
                    state
                },
                Seq::empty(),
            ),
        )
    }

    fn try_new(config: RebalanceConfig) -> (result: Option<Rebalance>) {
        let strategy = Rebalance {
            config,
            anchor: None,
            rung_prices: Vec::new(),
            rung_units: Vec::new(),
            ladder_placed: false,
            rejected: Vec::new(),
        };
        assert(strategy@.rung_prices =~= Seq::empty());
        assert(strategy@.rung_units =~= Seq::empty());
        assert(strategy@.rejected =~= Seq::empty());
        Some(strategy)
    }

    fn name(&self) -> (result: &str)
        ensures
            result@ == "rebalance"@,
    {
        "rebalance"
    }

    fn try_on_event(&mut self, ctx: &StrategyContext<'_>, event: &MarketEvent) -> (result: Option<
        Vec<Action>,
    >) {
        match event {
            MarketEvent::BookUpdate { snapshot } => match compute_mid_strict(snapshot)? {
                None => Some(Vec::new()),
                Some(mid) => {
                    if self.anchor.is_none() {
                        self.try_seed(mid)?;
                    }
                    self.on_book(ctx, snapshot, mid.0)
                },
            },
            MarketEvent::Fill(fill) => {
                if !self.ladder_placed {
                    return Some(Vec::new());
                }
                self.try_mirror(ctx.symbol, fill.price.0, fill.side, fill.size.0)
            },
            MarketEvent::Heartbeat { .. } | MarketEvent::Trade { .. } => Some(Vec::new()),
        }
    }

    fn try_on_quote_rejected(
        &mut self,
        ctx: &StrategyContext<'_>,
        intent: &QuoteIntent,
        reason: &str,
    ) -> (result: Option<Vec<Action>>) {
        if self.ladder_placed && intent.tif == TimeInForce::PostOnly {
            self.rejected.push(intent.clone());
        }
        Some(Vec::new())
    }
}

/// Once the lattice is frozen, no event and no rejection moves it, and the ladder is
/// never placed twice.
pub proof fn law_lattice_is_frozen(
    state: RebalanceState,
    ctx: StrategyContext,
    event: MarketEvent,
    intent: QuoteIntent,
    reason: Seq<char>,
)
    requires
        state.anchor is Some,
    ensures
        Rebalance::event_step(state, ctx, event) matches Some((next, _)) ==> next.anchor
            == state.anchor && next.rung_prices == state.rung_prices && next.rung_units
            == state.rung_units && (state.ladder_placed ==> next.ladder_placed),
        Rebalance::rejection_step(state, ctx, intent, reason) matches Some((next, _))
            ==> next.anchor == state.anchor && next.rung_prices == state.rung_prices
            && next.rung_units == state.rung_units && next.ladder_placed == state.ladder_placed,
{
}

/// Orders rest untouched: with the ladder placed and nothing refused, a book update
/// calls for nothing.
pub proof fn law_placed_orders_rest(state: RebalanceState, ctx: StrategyContext, snapshot: Snapshot)
    requires
        state.anchor is Some,
        state.ladder_placed,
        state.rejected.len() == 0,
        mid_strict(snapshot) is Some,
    ensures
        Rebalance::event_step(state, ctx, MarketEvent::BookUpdate { snapshot }) == Some(
            (state, Seq::<Action>::empty()),
        ),
{
    assert(revived(state.rejected, snapshot).0 =~= state.rejected);
}

/// Whether the action is a passive order of the ladder: a bid at a rung below the
/// anchor or an ask at one above it, for a positive size.
pub open spec fn is_ladder_quote(state: RebalanceState, action: Action) -> bool {
    action matches Action::Quote(order) && order.tif is PostOnly && order.size.0@ > 0 && exists|
        i: int,
    |
        0 <= i < state.rung_prices.len() && order.price.0 == #[trigger] state.rung_prices[i]
            && match order.side {
            Side::Bid => i < state.config.levels,
            Side::Ask => i > state.config.levels,
        }
}

/// The ladder buys below the anchor and sells above it.
pub proof fn law_ladder_buys_below_and_sells_above(state: RebalanceState, symbol: Symbol, n: nat)
    requires
        n <= state.rung_prices.len(),
    ensures
        ladder_orders(state, symbol, n) matches Some(orders) ==> forall|i: int|
            0 <= i < orders.len() ==> is_ladder_quote(state, #[trigger] orders[i]),
    decreases n,
{
    if n > 0 {
        law_ladder_buys_below_and_sells_above(state, symbol, (n - 1) as nat);
        if let Some(Some(Action::Quote(order))) = ladder_order(state, symbol, n - 1) {
            assert(order.price.0 == state.rung_prices[n - 1]);
        }
    }
}

/// The ladder has at most one order per rung and none at the anchor.
pub proof fn law_ladder_is_bounded(state: RebalanceState, symbol: Symbol, n: nat)
    ensures
        ladder_orders(state, symbol, n) matches Some(orders) ==> orders.len() <= (if n
            > state.config.levels {
            n - 1
        } else {
            n as int
        }),
    decreases n,
{
    if n > 0 {
        law_ladder_is_bounded(state, symbol, (n - 1) as nat);
    }
}

proof fn lemma_rung_index(prices: Seq<Decimal>, price: Decimal, n: nat)
    ensures
        rung_index(prices, price, n) matches Some(i) ==> 0 <= i < n && prices[i]@ == price@,
    decreases n,
{
    if n > 0 {
        lemma_rung_index(prices, price, (n - 1) as nat);
    }
}

/// A mirror carries the filled quantity to the other side, one rung toward where the
/// price came from.
pub proof fn law_mirror_keeps_the_size(
    state: RebalanceState,
    symbol: Symbol,
    fill_price: Decimal,
    side: Side,
    qty: Decimal,
)
    ensures
        mirrored(state, symbol, fill_price, side, qty) matches Some(actions) ==> {
            ||| actions.len() == 0
            ||| actions.len() == 1 && (actions[0] matches Action::Quote(order) && order.side
                == opposite(side) && order.size.0 == rounded(qty, 8) && exists|i: int|
                0 <= i < state.rung_prices.len() && (#[trigger] state.rung_prices[i])@
                    == fill_price@ && order.price.0 == state.rung_prices[mirror_rung(side, i)])
        },
{
    let len = state.rung_prices.len();
    lemma_rung_index(state.rung_prices, fill_price, len);
    if let Some(i) = rung_index(state.rung_prices, fill_price, len) {
        assert(state.rung_prices[i]@ == fill_price@);
    }
}

/// Where the rungs ascend, every rung is the one that is found at its price.
pub proof fn law_ascending_rungs_are_found(prices: Seq<Decimal>, i: int, n: nat)
    requires
        rungs_ascend(prices),
        0 <= i < n <= prices.len(),
    ensures
        rung_index(prices, prices[i], n) == Some(i),
    decreases n,
{
    lemma_rung_index(prices, prices[i], (n - 1) as nat);
    if i < n - 1 {
        law_ascending_rungs_are_found(prices, i, (n - 1) as nat);
    } else if let Some(j) = rung_index(prices, prices[i], (n - 1) as nat) {
        assert(prices[j]@ < prices[i]@);
    }
}

/// Mirroring the fill of a mirror restores the order that was there first: its side, its
/// rung and the filled quantity. Only the rung of the mirror has to be the one that is found
/// at its price.
pub proof fn law_mirroring_twice_restores_the_order(
    state: RebalanceState,
    symbol: Symbol,
    fill_price: Decimal,
    i: int,
    side: Side,
    qty: Decimal,
    order: QuoteIntent,
)
    requires
        state.rung_prices.len() == state.rung_units.len(),
        rung_index(state.rung_prices, fill_price, state.rung_prices.len()) == Some(i),
        mirrored(state, symbol, fill_price, side, qty) == Some(seq![Action::Quote(order)]),
        rung_index(state.rung_prices, order.price.0, state.rung_prices.len()) == Some(
            mirror_rung(side, i),
        ),
    ensures
        mirrored(state, symbol, order.price.0, order.side, order.size.0) == Some(
            seq![
                Action::Quote(
                    maker_order(symbol, side, state.rung_prices[i], rounded(qty, 8)),
                ),
            ],
        ),
{
    let prices = state.rung_prices;
    let j = mirror_rung(side, i);
    lemma_rung_index(prices, fill_price, prices.len());
    let first = mirrored(state, symbol, fill_price, side, qty)->0;
    assert(first.len() == 1 && first[0] == Action::Quote(order));
    assert(0 <= j < prices.len());
    assert(order == maker_order(symbol, opposite(side), prices[j], rounded(qty, 8)));
    lemma_rounded_twice(qty, 8);
    assert(rung_gap(state.rung_units, opposite(side), j) == rung_gap(state.rung_units, side, i));
}

/// A refused order is not lost: it is either quoted again or kept for later.
pub proof fn law_refused_orders_are_not_lost(rejected: Seq<QuoteIntent>, snapshot: Snapshot, i: int)
    requires
        0 <= i < rejected.len(),
    ensures
        would_rest(snapshot, rejected[i]) ==> revived(rejected, snapshot).1.contains(
            Action::Quote(rejected[i]),
        ),
        !would_rest(snapshot, rejected[i]) ==> revived(rejected, snapshot).0.contains(rejected[i]),
    decreases rejected.len(),
{
    let front = rejected.drop_last();
    let (left, quotes) = revived(front, snapshot);
    let (left_after, quotes_after) = revived(rejected, snapshot);
    if i < front.len() {
        law_refused_orders_are_not_lost(front, snapshot, i);
        assert(front[i] == rejected[i]);
        if would_rest(snapshot, rejected[i]) {
            let k = choose|k: int| 0 <= k < quotes.len() && quotes[k] == Action::Quote(rejected[i]);
            assert(quotes_after[k] == quotes[k]);
        } else {
            let k = choose|k: int| 0 <= k < left.len() && left[k] == rejected[i];
            assert(left_after[k] == left[k]);
        }
    } else if would_rest(snapshot, rejected[i]) {
        assert(quotes_after[quotes.len() as int] == Action::Quote(rejected[i]));
    } else {
        assert(left_after[left.len() as int] == rejected[i]);
    }
}

proof fn lemma_ladder_keeps_to(state: RebalanceState, symbol: Symbol, n: nat)
    ensures
        ladder_orders(state, symbol, n) matches Some(orders) ==> keeps_to(orders, symbol),
    decreases n,
{
    if n > 0 {
        lemma_ladder_keeps_to(state, symbol, (n - 1) as nat);
    }
}

proof fn lemma_revived_keeps_to(rejected: Seq<QuoteIntent>, snapshot: Snapshot, symbol: Symbol)
    requires
        all_for(rejected, symbol),
    ensures
        all_for(revived(rejected, snapshot).0, symbol),
        keeps_to(revived(rejected, snapshot).1, symbol),
    decreases rejected.len(),
{
    if rejected.len() > 0 {
        let front = rejected.drop_last();
        assert(rejected.last() == rejected[rejected.len() - 1]);
        assert forall|i: int| 0 <= i < front.len() implies (#[trigger] front[i]).symbol
            == symbol by {
            assert(front[i] == rejected[i]);
        }
        lemma_revived_keeps_to(front, snapshot, symbol);
    }
}

proof fn lemma_book_keeps_to(
    state: RebalanceState,
    ctx: StrategyContext,
    snapshot: Snapshot,
    mid: Decimal,
)
    requires
        all_for(state.rejected, *ctx.symbol),
    ensures
        book_step(state, ctx, snapshot, mid) matches Some((next, actions)) ==> keeps_to(
            actions,
            *ctx.symbol,
        ) && all_for(next.rejected, *ctx.symbol),
{
    lemma_revived_keeps_to(state.rejected, snapshot, *ctx.symbol);
    lemma_ladder_keeps_to(state, *ctx.symbol, state.rung_prices.len());
}

/// As long as the refused orders it remembers are for its instrument, no event calls
/// for an order in another one, and what it remembers afterwards is for its instrument
/// too; so is it after a rejection of an order for its instrument.
pub proof fn law_quotes_its_instrument(
    state: RebalanceState,
    ctx: StrategyContext,
    event: MarketEvent,
    intent: QuoteIntent,
    reason: Seq<char>,
)
    requires
        all_for(state.rejected, *ctx.symbol),
        intent.symbol == *ctx.symbol,
    ensures
        Rebalance::event_step(state, ctx, event) matches Some((next, actions)) ==> keeps_to(
            actions,
            *ctx.symbol,
        ) && all_for(next.rejected, *ctx.symbol),
        Rebalance::rejection_step(state, ctx, intent, reason) matches Some((next, actions))
            ==> keeps_to(actions, *ctx.symbol) && all_for(next.rejected, *ctx.symbol),
{
    if let MarketEvent::BookUpdate { snapshot } = event {
        if let Some(Some(mid)) = mid_strict(snapshot) {
            lemma_book_keeps_to(state, ctx, snapshot, mid.0);
            if let Some(anchored) = seeded(state, mid) {
                lemma_book_keeps_to(anchored, ctx, snapshot, mid.0);
            }
        }
    }
}

proof fn lemma_share_restored(
    w: int,
    cash: int,
    units: int,
    price: int,
    held: int,
    traded: int,
    size: int,
)
    requires
        held * pow10(28) == units * price,
        (held + traded) * pow10(28) == w * (cash + held),
        size * price == traded * pow10(28),
    ensures
        ((units + size) * price) * pow10(28) == w * ((cash - traded) * pow10(28) + (units + size)
            * price),
{
    let p = pow10(28);
    assert((units + size) * price == (held + traded) * p) by (nonlinear_arith)
        requires
            held * p == units * price,
            size * price == traded * p,
    ;
    assert(((held + traded) * p) * p == w * ((cash - traded) * p + (held + traded) * p))
        by (nonlinear_arith)
        requires
            (held + traded) * p == w * (cash + held),
    ;
}

/// Going down a rung the asset is bought until it has its target share again: its value at the
/// new price is the target fraction of that value and the cash left.
pub proof fn law_rung_below_restores_the_target(
    config: RebalanceConfig,
    from: Rung,
    down: Decimal,
    moved: Decimal,
    price: Decimal,
    held: Decimal,
    total: Decimal,
    wanted: Decimal,
    lacking: Decimal,
    spent: Decimal,
    raw_size: Decimal,
    size: Decimal,
    raw_cash: Decimal,
    cash: Decimal,
    units: Decimal,
)
    requires
        minus(Some(whole(1)), bps_fraction(config.band_bps as int)) == Some(down),
        product(from.price, down) == Some(moved),
        rounded(moved, 10) == price,
        product(from.units, price) == Some(held),
        held@ * pow10(28) == from.units@ * price@,
        sum(from.cash, held) == Some(total),
        total@ == from.cash@ + held@,
        product(config.target_asset_frac, total) == Some(wanted),
        wanted@ * pow10(28) == config.target_asset_frac@ * total@,
        difference(wanted, held) == Some(lacking),
        lacking@ == wanted@ - held@,
        rounded(lacking, 10) == spent,
        spent@ == lacking@,
        quotient(spent, price) == Some(raw_size),
        rounded(raw_size, 10) == size,
        size@ * price@ == spent@ * pow10(28),
        difference(from.cash, spent) == Some(raw_cash),
        rounded(raw_cash, 10) == cash,
        cash@ == from.cash@ - spent@,
        sum(from.units, size) == Some(units),
        units@ == from.units@ + size@,
    ensures
        rung_below(config, from) matches Some(rung) && rung.price == price && (rung.units@
            * rung.price@) * pow10(28) == config.target_asset_frac@ * (rung.cash@ * pow10(28)
            + rung.units@ * rung.price@),
        rung_below(config, from) is Some,
{
    lemma_share_restored(
        config.target_asset_frac@,
        from.cash@,
        from.units@,
        price@,
        held@,
        spent@,
        size@,
    );
}

/// Going up a rung the asset is sold until it has its target share again: its value at the new
/// price is the target fraction of that value and the cash then held.
pub proof fn law_rung_above_restores_the_target(
    config: RebalanceConfig,
    from: Rung,
    up: Decimal,
    moved: Decimal,
    price: Decimal,
    held: Decimal,
    total: Decimal,
    wanted: Decimal,
    excess: Decimal,
    earned: Decimal,
    raw_size: Decimal,
    size: Decimal,
    raw_cash: Decimal,
    cash: Decimal,
    units: Decimal,
)
    requires
        plus(Some(whole(1)), bps_fraction(config.band_bps as int)) == Some(up),
        product(from.price, up) == Some(moved),
        rounded(moved, 10) == price,
        product(from.units, price) == Some(held),
        held@ * pow10(28) == from.units@ * price@,
        sum(from.cash, held) == Some(total),
        total@ == from.cash@ + held@,
        product(config.target_asset_frac, total) == Some(wanted),
        wanted@ * pow10(28) == config.target_asset_frac@ * total@,
        difference(held, wanted) == Some(excess),
        excess@ == held@ - wanted@,
        rounded(excess, 10) == earned,
        earned@ == excess@,
        quotient(earned, price) == Some(raw_size),
        rounded(raw_size, 10) == size,
        size@ * price@ == earned@ * pow10(28),
        sum(from.cash, earned) == Some(raw_cash),
        rounded(raw_cash, 10) == cash,
        cash@ == from.cash@ + earned@,
        difference(from.units, size) == Some(units),
        units@ == from.units@ - size@,
    ensures
        rung_above(config, from) matches Some(rung) && rung.price == price && (rung.units@
            * rung.price@) * pow10(28) == config.target_asset_frac@ * (rung.cash@ * pow10(28)
            + rung.units@ * rung.price@),
        rung_above(config, from) is Some,
{
    let (e, s, pr, p) = (earned@, size@, price@, pow10(28));
    assert((-s) * pr == (-e) * p) by (nonlinear_arith)
        requires
            s * pr == e * p,
    ;
    lemma_share_restored(
        config.target_asset_frac@,
        from.cash@,
        from.units@,
        price@,
        held@,
        -earned@,
        -size@,
    );
}

/// The anchor rung splits the balance by the target.
pub proof fn law_anchor_splits_the_balance(
    config: RebalanceConfig,
    p0: Decimal,
    value: Decimal,
    raw_units: Decimal,
    share: Decimal,
    raw_cash: Decimal,
)
    requires
        product(config.initial_balance, config.target_asset_frac) == Some(value),
        value@ * pow10(28) == config.initial_balance@ * config.target_asset_frac@,
        quotient(value, p0) == Some(raw_units),
        raw_units@ * p0@ == value@ * pow10(28),
        rounded(raw_units, 10)@ == raw_units@,
        difference(whole(1), config.target_asset_frac) == Some(share),
        share@ == pow10(28) - config.target_asset_frac@,
        product(config.initial_balance, share) == Some(raw_cash),
        raw_cash@ * pow10(28) == config.initial_balance@ * share@,
        rounded(raw_cash, 10)@ == raw_cash@,
    ensures
        anchor_rung(config, p0) matches Some(rung) && rung.price == p0 && rung.units@ * rung.price@
            == config.initial_balance@ * config.target_asset_frac@ && rung.cash@ * pow10(28)
            + rung.units@ * rung.price@ == config.initial_balance@ * pow10(28),
{
    let (b, w, s, p) = (config.initial_balance@, config.target_asset_frac@, share@, pow10(28));
    assert(b * s + b * w == b * p) by (nonlinear_arith)
        requires
            s == p - w,
    ;
}

/// A bid of the ladder buys what the holding at its rung has over the next rung up, an ask sells
/// what the holding at the next rung down has over its own.
pub proof fn law_orders_trade_between_rungs(units: Seq<Decimal>, i: int)
    requires
        0 < i < units.len() - 1,
        exact_difference(units[i], units[i + 1]),
        exact_difference(units[i - 1], units[i]),
    ensures
        ({
            let (bid, ask) = (difference(units[i], units[i + 1])->0, difference(
                units[i - 1],
                units[i],
            )->0);
            &&& rung_gap(units, Side::Bid, i) == Some(rounded(bid, 8)) && bid@ == units[i]@
                - units[i + 1]@
            &&& rung_gap(units, Side::Ask, i) == Some(rounded(ask, 8)) && ask@ == units[i - 1]@
                - units[i]@
        }),
{
}

/// Before the ladder is placed, what the anchor holding lacks is bought at once, for up to a
/// hundredth over the best ask; nothing is sold, and nothing is bought that is worth too little.
pub proof fn law_opening_buys_what_is_lacking(
    state: RebalanceState,
    ctx: StrategyContext,
    mid: Decimal,
    lacking: Decimal,
)
    requires
        state.config.levels < state.rung_units.len(),
        difference(
            state.rung_units[state.config.levels as int],
            ctx.position.size.0,
        ) == Some(lacking),
        ctx.latest_book.asks@.len() > 0,
    ensures
        rounded(lacking, 8)@ <= 0 ==> opening_order(state, ctx, mid) == Some(None::<Action>),
        opening_order(state, ctx, mid) matches Some(Some(action)) ==> {
            let order = action->Quote_0;
            let value = product(order.size.0, mid);
            &&& action is Quote && order.side is Bid && order.tif is IOC
            &&& order.size.0 == rounded(lacking, 8) && order.size.0@ > 0
            &&& value is Some && value->0@ >= state.config.min_order_notional@ && value->0@
                >= whole(1)@
            &&& product(ctx.latest_book.asks@[0].price.0, decimal(101, 2)) is Some
            &&& order.price.0 == rounded(
                product(ctx.latest_book.asks@[0].price.0, decimal(101, 2))->0,
                8,
            )
        },
{
}

/// A fill of no more than its rung trades is mirrored one rung over: a bought rung is offered one
/// rung up, a sold one bid for one rung down. Fills elsewhere are left alone.
pub proof fn law_fills_are_mirrored_one_rung_over(
    state: RebalanceState,
    symbol: Symbol,
    fill_price: Decimal,
    side: Side,
    qty: Decimal,
)
    ensures
        rung_index(state.rung_prices, fill_price, state.rung_prices.len()) is None ==> mirrored(
            state,
            symbol,
            fill_price,
            side,
            qty,
        ) == Some(Seq::<Action>::empty()),
        mirrored(state, symbol, fill_price, side, qty) matches Some(actions) ==> actions.len() > 0
            ==> {
            let i = rung_index(state.rung_prices, fill_price, state.rung_prices.len())->0;
            let order = actions[0]->Quote_0;
            let most = sum(rung_gap(state.rung_units, side, i)->0, decimal(1, 8));
            &&& actions.len() == 1 && actions[0] is Quote
            &&& order.size.0 == rounded(qty, 8) && order.size.0@ > 0
            &&& most is Some && order.size.0@ <= most->0@
            &&& side is Bid ==> order.side is Ask && i + 1 < state.rung_prices.len()
                && order.price.0 == state.rung_prices[i + 1]
            &&& side is Ask ==> order.side is Bid && i >= 1 && order.price.0
                == state.rung_prices[i - 1]
        },
{
}

/// A resting order that is refused once the ladder is placed is kept for later; anything else
/// that is refused is forgotten.
pub proof fn law_refused_orders_are_kept(
    state: RebalanceState,
    ctx: StrategyContext,
    intent: QuoteIntent,
    reason: Seq<char>,
)
    ensures
        Rebalance::rejection_step(state, ctx, intent, reason) matches Some((next, actions))
            && actions.len() == 0 && next.rejected == if state.ladder_placed
            && intent.tif is PostOnly {
            state.rejected.push(intent)
        } else {
            state.rejected
        },
{
}

/// Of the rungs of the lattice those before the middle lie below the anchor, one step down from
/// the next, and those behind it above, one step up from the one before.
pub proof fn law_lattice_steps_away_from_the_anchor(
    config: RebalanceConfig,
    p0: Decimal,
    i: int,
    from: Rung,
)
    requires
        0 <= i <= 2 * config.levels,
        i < config.levels ==> lattice_rung(config, p0, i + 1) == Some(from),
        i > config.levels ==> lattice_rung(config, p0, i - 1) == Some(from),
    ensures
        i < config.levels ==> lattice_rung(config, p0, i) == rung_below(config, from),
        i > config.levels ==> lattice_rung(config, p0, i) == rung_above(config, from),
        i == config.levels ==> lattice_rung(config, p0, i) == anchor_rung(config, p0),
{
    let n = config.levels as int;
    if i < n {
        assert((n - i - 1) as nat == (n - (i + 1)) as nat);
        if i + 1 == n {
            assert(rung_at(config, p0, true, 0) == rung_at(config, p0, false, 0));
        }
    }
}

} // verus!
