//! A spread-gated grid that always keeps a way out.
//!
//! While the book spread is wide enough the strategy is hot: it rests a ladder on both
//! sides, innermost order first, without the side that would deepen a position at its
//! cap. While the spread is too tight it is cold: everything is cancelled but one order
//! that closes the position at a target from its entry, or better. A take-profit and a
//! stop-loss in bps of the position come before either.

use crate::decimal::{
    absolute, difference, exact_difference, exact_sum, greater, lemma_pow10_positive, lemma_whole,
    lesser, minus, negated, over, plus, pow10, product, quotient, sum, times, whole, Decimal,
};
use crate::market::{maker_order, MarketEvent, Price, QuoteIntent, Side, Size, Symbol};
use crate::quoting::{
    bps_fraction, fraction, lemma_reaches_bps, lemma_reads_exactly, make_post_only_intent,
    measures_exactly, midpoint, price_away, reaches_bps, reads_exactly, try_bps_fraction,
    try_bps_of, try_fraction, try_midpoint, try_price_away,
};
use crate::risk::{build_close, flatten, risk_decision, try_evaluate, RiskConfig, RiskDecision};
use crate::sizing::{floored_lot_size, try_floored_lot_size};
use crate::sorting::{law_sorted, sort_ranked, sorted, Ranked};
use crate::strategy::{
    follows, keeps_to, lemma_keeps_to_joined, quotes_on, Action, Strategy, StrategyContext,
};
use vstd::prelude::*;

verus! {

/// Configuration for [`Hawk`].
#[derive(Clone, Copy, Debug)]
pub struct HawkConfig {
    /// Notional per order.
    pub notional_per_order: Decimal,
    /// Venue tick size.
    pub tick_size: Decimal,
    /// Venue lot step size.
    pub step_size: Decimal,
    /// Venue minimum order notional.
    pub min_notional: Decimal,
    /// Orders per side.
    pub levels_per_side: u32,
    /// Distance of the levels from the mid, in bps; the innermost level joins one tick
    /// inside the touch.
    pub inner_bps: u32,
    /// Distance from each level to the next, in bps.
    pub step_bps: u32,
    /// Least book spread at which the ladder is quoted, in bps. `0` always quotes.
    pub min_spread_bps: Decimal,
    /// Hard position cap in quote currency. `0` disables it.
    pub max_position_usdt: Decimal,
    /// Distance of the closing order from the entry while cold, in bps. `0` means
    /// `min_spread_bps`.
    pub close_target_bps: u32,
    /// Take-profit in bps of position notional. `0` disables it.
    pub take_profit_bps: u32,
    /// Stop-loss in bps of position notional. `0` disables it.
    pub stop_loss_bps: u32,
}

/// Spread-gated grid strategy.
#[derive(Clone, Copy, Debug)]
pub struct Hawk {
    /// Settings.
    pub config: HawkConfig,
    /// Best bid last seen.
    pub last_bid: Option<Price>,
    /// Best ask last seen.
    pub last_ask: Option<Price>,
    /// Whether the ladder is out.
    pub placed: bool,
}

impl View for Hawk {
    type V = Hawk;

    open spec fn view(&self) -> Hawk {
        *self
    }
}

/// One order of the ladder.
#[derive(Clone, Copy, Debug)]
pub struct LadderOrder {
    /// Side.
    pub side: Side,
    /// Price.
    pub price: Decimal,
    /// Size.
    pub size: Decimal,
    /// Distance from the mid.
    pub distance: Decimal,
}

impl Ranked for LadderOrder {
    open spec fn before(self, other: LadderOrder) -> bool {
        self.distance@ < other.distance@
    }

    proof fn asymmetric(a: LadderOrder, b: LadderOrder) {
    }

    proof fn not_before_carries(a: LadderOrder, b: LadderOrder, c: LadderOrder) {
    }

    fn comes_before(&self, other: &LadderOrder) -> (result: bool) {
        self.distance.is_less(other.distance)
    }
}

/// The innermost targets, one tick inside the touch; the inner `None` is a bad book, a
/// closed gate or a book with no room inside.
pub open spec fn top_targets(config: HawkConfig, best_bid: Price, best_ask: Price) -> Option<
    Option<(Price, Price)>,
> {
    if config.tick_size@ <= 0 || best_ask.0@ <= best_bid.0@ {
        Some(None)
    } else {
        match midpoint(best_bid.0, best_ask.0) {
            None => None,
            Some(mid) => if mid@ <= 0 {
                Some(None)
            } else {
                match times(
                    over(difference(best_ask.0, best_bid.0), Some(mid)),
                    Some(whole(10_000)),
                ) {
                    None => None,
                    Some(spread_bps) => if config.min_spread_bps@ > 0 && spread_bps@
                        < config.min_spread_bps@ {
                        Some(None)
                    } else {
                        match (
                            sum(best_bid.0, config.tick_size),
                            difference(best_ask.0, config.tick_size),
                        ) {
                            (Some(bid), Some(ask)) => Some(
                                if bid@ >= ask@ {
                                    None
                                } else {
                                    Some((Price(bid), Price(ask)))
                                },
                            ),
                            _ => None,
                        }
                    },
                }
            },
        }
    }
}

/// Whether an order on this side would deepen a position that is at its cap.
pub open spec fn side_capped(config: HawkConfig, pos_usdt: Decimal, side: Side) -> bool {
    config.max_position_usdt@ > 0 && match side {
        Side::Bid => pos_usdt@ >= config.max_position_usdt@,
        Side::Ask => pos_usdt@ <= negated(config.max_position_usdt)@,
    }
}

/// The side that closes a position, where there is one.
pub open spec fn hawk_close_side(pos: Decimal) -> Option<Side> {
    if pos@ > 0 {
        Some(Side::Ask)
    } else if pos@ < 0 {
        Some(Side::Bid)
    } else {
        None
    }
}

/// One tick inside the touch on a side.
pub open spec fn inside_touch(
    config: HawkConfig,
    side: Side,
    best_bid: Price,
    best_ask: Price,
) -> Option<Decimal> {
    match side {
        Side::Bid => sum(best_bid.0, config.tick_size),
        Side::Ask => difference(best_ask.0, config.tick_size),
    }
}

/// The price of level `k` on a side: one tick inside the touch for the innermost, and
/// `inner_bps + k x step_bps` from the mid for the others.
pub open spec fn level_price(
    config: HawkConfig,
    side: Side,
    best_bid: Price,
    best_ask: Price,
    mid: Decimal,
    k: int,
) -> Option<Decimal> {
    let bps = config.inner_bps + config.step_bps * k;
    if bps > u32::MAX {
        None
    } else if k == 0 {
        inside_touch(config, side, best_bid, best_ask)
    } else {
        price_away(mid, side, bps_fraction(bps))
    }
}

/// The order of level `k` on a side; none where the side is capped. Its distance is
/// left at zero.
pub open spec fn level_order(
    config: HawkConfig,
    side: Side,
    best_bid: Price,
    best_ask: Price,
    mid: Decimal,
    capped: bool,
    k: int,
) -> Option<Seq<LadderOrder>> {
    if config.inner_bps + config.step_bps * k > u32::MAX {
        None
    } else if capped {
        Some(Seq::empty())
    } else {
        match level_price(config, side, best_bid, best_ask, mid, k) {
            None => None,
            Some(price) => match floored_lot_size(
                config.notional_per_order,
                price,
                config.step_size,
                config.min_notional,
            ) {
                None => None,
                Some(size) => Some(seq![LadderOrder { side, price, size, distance: whole(0) }]),
            },
        }
    }
}

/// The orders of the first `n` levels, level by level.
pub open spec fn level_orders(
    config: HawkConfig,
    best_bid: Price,
    best_ask: Price,
    mid: Decimal,
    pos_usdt: Decimal,
    n: nat,
) -> Option<Seq<LadderOrder>>
    decreases n,
{
    if n == 0 {
        Some(Seq::empty())
    } else {
        match (
            level_orders(config, best_bid, best_ask, mid, pos_usdt, (n - 1) as nat),
            level_order(
                config,
                Side::Bid,
                best_bid,
                best_ask,
                mid,
                side_capped(config, pos_usdt, Side::Bid),
                n - 1,
            ),
            level_order(
                config,
                Side::Ask,
                best_bid,
                best_ask,
                mid,
                side_capped(config, pos_usdt, Side::Ask),
                n - 1,
            ),
        ) {
            (Some(orders), Some(bids), Some(asks)) => Some(orders + bids + asks),
            _ => None,
        }
    }
}

/// The first `n` orders with their distances from the mid.
pub open spec fn measured(orders: Seq<LadderOrder>, mid: Decimal, n: nat) -> Option<
    Seq<LadderOrder>,
>
    decreases n,
{
    if n == 0 {
        Some(Seq::empty())
    } else {
        match (
            measured(orders, mid, (n - 1) as nat),
            difference(orders[n - 1].price, mid),
        ) {
            (Some(done), Some(away)) => Some(
                done.push(LadderOrder { distance: absolute(away), ..orders[n - 1] }),
            ),
            _ => None,
        }
    }
}

/// The orders with the innermost first.
pub open spec fn inside_out(orders: Seq<LadderOrder>, mid: Decimal) -> Option<Seq<LadderOrder>> {
    if orders.len() < 2 {
        Some(orders)
    } else {
        match measured(orders, mid, orders.len()) {
            None => None,
            Some(orders) => Some(sorted(orders)),
        }
    }
}

/// Quotes for these orders.
pub open spec fn ladder_quotes(symbol: Symbol, orders: Seq<LadderOrder>) -> Seq<Action> {
    Seq::new(
        orders.len(),
        |i: int|
            Action::Quote(maker_order(symbol, orders[i].side, orders[i].price, orders[i].size)),
    )
}

/// What the strategy does while hot.
pub open spec fn hot_actions(
    config: HawkConfig,
    ctx: StrategyContext,
    best_bid: Price,
    best_ask: Price,
) -> Option<Seq<Action>> {
    match midpoint(best_bid.0, best_ask.0) {
        None => None,
        Some(mid) => match product(ctx.position.size.0, mid) {
            None => None,
            Some(pos_usdt) => match level_orders(
                config,
                best_bid,
                best_ask,
                mid,
                pos_usdt,
                config.levels_per_side as nat,
            ) {
                None => None,
                Some(orders) => match inside_out(orders, mid) {
                    None => None,
                    Some(orders) => Some(
                        seq![Action::CancelAll] + ladder_quotes(*ctx.symbol, orders),
                    ),
                },
            },
        },
    }
}

/// The distance of the closing order from the entry, as a fraction.
pub open spec fn close_distance(config: HawkConfig) -> Option<Decimal> {
    if config.close_target_bps > 0 {
        fraction(whole(config.close_target_bps as int))
    } else {
        fraction(config.min_spread_bps)
    }
}

/// The price of the closing order while cold: the target from the entry, or one tick
/// inside the touch where that is better still.
pub open spec fn cold_price(
    config: HawkConfig,
    side: Side,
    entry: Decimal,
    best_bid: Price,
    best_ask: Price,
) -> Option<Decimal> {
    match (
        price_away(entry, side, close_distance(config)),
        inside_touch(config, side, best_bid, best_ask),
    ) {
        (Some(target), Some(touch)) => Some(
            match side {
                Side::Ask => greater(target, touch),
                Side::Bid => lesser(target, touch),
            },
        ),
        _ => None,
    }
}

/// What the strategy does while cold.
pub open spec fn cold_actions(
    config: HawkConfig,
    ctx: StrategyContext,
    best_bid: Price,
    best_ask: Price,
) -> Option<Seq<Action>> {
    let entry = ctx.position.avg_entry.0;
    match hawk_close_side(ctx.position.size.0) {
        None => Some(seq![Action::CancelAll]),
        Some(side) => if entry@ <= 0 {
            Some(seq![Action::CancelAll])
        } else {
            match cold_price(config, side, entry, best_bid, best_ask) {
                None => None,
                Some(price) => {
                    let crosses = match side {
                        Side::Ask => price@ <= best_bid.0@,
                        Side::Bid => price@ >= best_ask.0@,
                    };
                    if crosses {
                        Some(Seq::empty())
                    } else {
                        match floored_lot_size(
                            config.notional_per_order,
                            price,
                            config.step_size,
                            config.min_notional,
                        ) {
                            None => None,
                            Some(size) => Some(
                                seq![
                                    Action::CancelAll,
                                    Action::Quote(maker_order(*ctx.symbol, side, price, size)),
                                ],
                            ),
                        }
                    }
                },
            }
        },
    }
}

/// The decision of the take-profit and stop-loss, which hold where both are off.
pub open spec fn guarded(config: HawkConfig, ctx: StrategyContext, best_bid: Price, best_ask: Price)
    -> Option<RiskDecision> {
    if config.take_profit_bps == 0 && config.stop_loss_bps == 0 {
        Some(RiskDecision::Hold)
    } else {
        match midpoint(best_bid.0, best_ask.0) {
            None => None,
            Some(mid) => risk_decision(
                *ctx.position,
                Price(mid),
                RiskConfig {
                    take_profit_bps: config.take_profit_bps,
                    stop_loss_bps: config.stop_loss_bps,
                    take_profit_usdt_legacy: whole(0),
                },
            ),
        }
    }
}

/// The state and actions for a book.
pub open spec fn priced_step(state: Hawk, ctx: StrategyContext, best_bid: Price, best_ask: Price)
    -> Option<(Hawk, Seq<Action>)> {
    match guarded(state.config, ctx, best_bid, best_ask) {
        None => None,
        Some(RiskDecision::Close { side, qty, .. }) => Some(
            (
                Hawk { placed: false, ..state },
                flatten(*ctx.symbol, side, qty.0, best_bid, best_ask),
            ),
        ),
        Some(RiskDecision::Hold) => match top_targets(state.config, best_bid, best_ask) {
            None => None,
            Some(Some(_)) => match hot_actions(state.config, ctx, best_bid, best_ask) {
                None => None,
                Some(actions) => Some((Hawk { placed: true, ..state }, actions)),
            },
            Some(None) => match cold_actions(state.config, ctx, best_bid, best_ask) {
                None => None,
                Some(actions) => Some((Hawk { placed: false, ..state }, actions)),
            },
        },
    }
}

/// The state and actions that an event calls for.
pub open spec fn hawk_step(state: Hawk, ctx: StrategyContext, event: MarketEvent) -> Option<
    (Hawk, Seq<Action>),
> {
    match event {
        MarketEvent::BookUpdate { snapshot } => if snapshot.bids@.len() == 0
            || snapshot.asks@.len() == 0 {
            Some((state, Seq::empty()))
        } else {
            let best_bid = snapshot.bids@[0].price;
            let best_ask = snapshot.asks@[0].price;
            priced_step(
                Hawk { last_bid: Some(best_bid), last_ask: Some(best_ask), ..state },
                ctx,
                best_bid,
                best_ask,
            )
        },
        MarketEvent::Trade { .. } => Some((state, Seq::empty())),
        _ => match (state.last_bid, state.last_ask) {
            (Some(best_bid), Some(best_ask)) => priced_step(state, ctx, best_bid, best_ask),
            _ => Some((state, Seq::empty())),
        },
    }
}

proof fn lemma_levels_fail(
    config: HawkConfig,
    best_bid: Price,
    best_ask: Price,
    mid: Decimal,
    pos_usdt: Decimal,
    less: nat,
    more: nat,
)
    requires
        less <= more,
        level_orders(config, best_bid, best_ask, mid, pos_usdt, less) is None,
    ensures
        level_orders(config, best_bid, best_ask, mid, pos_usdt, more) is None,
    decreases more,
{
    if less < more {
        lemma_levels_fail(config, best_bid, best_ask, mid, pos_usdt, less, (more - 1) as nat);
    }
}

proof fn lemma_measuring_fails(orders: Seq<LadderOrder>, mid: Decimal, less: nat, more: nat)
    requires
        less <= more,
        measured(orders, mid, less) is None,
    ensures
        measured(orders, mid, more) is None,
    decreases more,
{
    if less < more {
        lemma_measuring_fails(orders, mid, less, (more - 1) as nat);
    }
}

impl Hawk {
    fn compute_top_targets(&self, best_bid: Price, best_ask: Price) -> (result: Option<
        Option<(Price, Price)>,
    >)
        ensures
            result == top_targets(self.config, best_bid, best_ask),
            result matches Some(Some((bid, ask))) ==> {
                &&& best_bid.0@ < best_ask.0@ && bid.0@ < ask.0@
                &&& exact_sum(best_bid.0, self.config.tick_size) ==> bid.0@ == best_bid.0@
                    + self.config.tick_size@
                &&& exact_difference(best_ask.0, self.config.tick_size) ==> ask.0@ == best_ask.0@
                    - self.config.tick_size@
            },
            result is Some && self.config.tick_size@ > 0 && best_bid.0@ < best_ask.0@
                && self.config.min_spread_bps@ > 0 ==> {
                let mid = midpoint(best_bid.0, best_ask.0)->0;
                let open = result->0 is Some;
                mid@ > 0 && exact_difference(best_ask.0, best_bid.0) && measures_exactly(
                    difference(best_ask.0, best_bid.0)->0,
                    mid,
                ) && (open || exact_sum(best_bid.0, self.config.tick_size) && exact_difference(
                    best_ask.0,
                    self.config.tick_size,
                ) && best_bid.0@ + self.config.tick_size@ < best_ask.0@ - self.config.tick_size@)
                    ==> reaches_bps(
                    best_ask.0@ - best_bid.0@,
                    mid@,
                    self.config.min_spread_bps@,
                    open,
                )
            },
    {
        let tick = self.config.tick_size;
        if !tick.is_positive() || best_ask.0.is_at_most(best_bid.0) {
            return Some(None);
        }
        let mid = try_midpoint(best_bid.0, best_ask.0)?;
        if !mid.is_positive() {
            return Some(None);
        }
        let spread = best_ask.0.checked_sub(best_bid.0)?;
        let spread_bps = try_bps_of(spread, mid)?;
        proof {
            if measures_exactly(spread, mid) {
                lemma_reaches_bps(
                    spread@,
                    mid@,
                    spread_bps@,
                    self.config.min_spread_bps@,
                );
            }
        }
        if self.config.min_spread_bps.is_positive() && spread_bps.is_less(
            self.config.min_spread_bps,
        ) {
            return Some(None);
        }
        let bid = best_bid.0.checked_add(tick)?;
        let ask = best_ask.0.checked_sub(tick)?;
        if bid.is_at_least(ask) {
            return Some(None);
        }
        Some(Some((Price(bid), Price(ask))))
    }

    fn add_side_capped(&self, pos_usdt: Decimal, side: Side) -> (result: bool)
        ensures
            result == side_capped(self.config, pos_usdt, side),
            result == (self.config.max_position_usdt@ > 0 && match side {
                Side::Bid => pos_usdt@ >= self.config.max_position_usdt@,
                Side::Ask => -pos_usdt@ >= self.config.max_position_usdt@,
            }),
    {
        let cap = self.config.max_position_usdt;
        if !cap.is_positive() {
            return false;
        }
        match side {
            Side::Bid => pos_usdt.is_at_least(cap),
            Side::Ask => pos_usdt.is_at_most(cap.negate()),
        }
    }

    fn close_side(pos_size: Decimal) -> (result: Option<Side>)
        ensures
            result == hawk_close_side(pos_size),
    {
        if pos_size.is_positive() {
            Some(Side::Ask)
        } else if pos_size.is_negative() {
            Some(Side::Bid)
        } else {
            None
        }
    }

    fn try_inside_touch(&self, side: Side, best_bid: Price, best_ask: Price) -> (result: Option<
        Decimal,
    >)
        ensures
            result == inside_touch(self.config, side, best_bid, best_ask),
    {
        match side {
            Side::Bid => best_bid.0.checked_add(self.config.tick_size),
            Side::Ask => best_ask.0.checked_sub(self.config.tick_size),
        }
    }

    fn quote_size_at(&self, price: Decimal) -> (result: Option<Size>)
        ensures
            match floored_lot_size(
                self.config.notional_per_order,
                price,
                self.config.step_size,
                self.config.min_notional,
            ) {
                Some(size) => result == Some(Size(size)),
                None => result is None,
            },
    {
        try_floored_lot_size(
            self.config.notional_per_order,
            Price(price),
            self.config.step_size,
            self.config.min_notional,
        )
    }

    fn push_level(
        &self,
        orders: &mut Vec<LadderOrder>,
        side: Side,
        best_bid: Price,
        best_ask: Price,
        mid: Decimal,
        capped: bool,
        k: u32,
    ) -> (result: Option<()>)
        ensures
            match level_order(self.config, side, best_bid, best_ask, mid, capped, k as int) {
                Some(more) => result is Some && final(orders)@ =~= old(orders)@ + more,
                None => result is None,
            },
    {
        let bps: u32 = match self.config.step_bps.checked_mul(k) {
            Some(further) => match self.config.inner_bps.checked_add(further) {
                Some(bps) => bps,
                None => {
                    return None;
                },
            },
            None => {
                return None;
            },
        };
        if capped {
            return Some(());
        }
        let price = if k == 0 {
            self.try_inside_touch(side, best_bid, best_ask)?
        } else {
            try_price_away(mid, side, try_bps_fraction(bps)?)?
        };
        let size = self.quote_size_at(price)?.0;
        orders.push(LadderOrder { side, price, size, distance: Decimal::zero() });
        Some(())
    }

    fn try_levels(&self, best_bid: Price, best_ask: Price, mid: Decimal, pos_usdt: Decimal)
        -> (result: Option<Vec<LadderOrder>>)
        ensures
            match level_orders(
                self.config,
                best_bid,
                best_ask,
                mid,
                pos_usdt,
                self.config.levels_per_side as nat,
            ) {
                Some(orders) => result is Some && result->0@ =~= orders,
                None => result is None,
            },
    {
        let bid_capped = self.add_side_capped(pos_usdt, Side::Bid);
        let ask_capped = self.add_side_capped(pos_usdt, Side::Ask);
        let n: u32 = self.config.levels_per_side;
        let mut orders: Vec<LadderOrder> = Vec::new();
        let mut k: u32 = 0;
        while k < n
            invariant
                k <= n,
                n == self.config.levels_per_side,
                bid_capped == side_capped(self.config, pos_usdt, Side::Bid),
                ask_capped == side_capped(self.config, pos_usdt, Side::Ask),
                level_orders(self.config, best_bid, best_ask, mid, pos_usdt, k as nat) == Some(
                    orders@,
                ),
            decreases n - k,
        {
            proof {
                if level_orders(self.config, best_bid, best_ask, mid, pos_usdt, (k + 1) as nat)
                    is None {
                    lemma_levels_fail(
                        self.config,
                        best_bid,
                        best_ask,
                        mid,
                        pos_usdt,
                        (k + 1) as nat,
                        n as nat,
                    );
                }
            }
            self.push_level(&mut orders, Side::Bid, best_bid, best_ask, mid, bid_capped, k)?;
            self.push_level(&mut orders, Side::Ask, best_bid, best_ask, mid, ask_capped, k)?;
            k = k + 1;
        }
        Some(orders)
    }

    fn try_inside_out(orders: Vec<LadderOrder>, mid: Decimal) -> (result: Option<Vec<LadderOrder>>)
        ensures
            match inside_out(orders@, mid) {
                Some(orders) => result is Some && result->0@ =~= orders,
                None => result is None,
            },
    {
        if orders.len() < 2 {
            return Some(orders);
        }
        let mut done: Vec<LadderOrder> = Vec::new();
        let mut i: usize = 0;
        while i < orders.len()
            invariant
                i <= orders@.len(),
                orders@.len() >= 2,
                measured(orders@, mid, i as nat) == Some(done@),
            decreases orders@.len() - i,
        {
            proof {
                if measured(orders@, mid, (i + 1) as nat) is None {
                    lemma_measuring_fails(orders@, mid, (i + 1) as nat, orders@.len());
                }
            }
            let order = orders[i];
            let distance = order.price.checked_sub(mid)?.abs();
            done.push(LadderOrder { distance, ..order });
            i = i + 1;
        }
        Some(sort_ranked(&done))
    }

    fn build_ladder(&self, ctx: &StrategyContext<'_>, best_bid: Price, best_ask: Price) -> (result:
        Option<Vec<Action>>)
        ensures
            match hot_actions(self.config, *ctx, best_bid, best_ask) {
                Some(actions) => result is Some && result->0@ =~= actions,
                None => result is None,
            },
    {
        let mid = try_midpoint(best_bid.0, best_ask.0)?;
        let pos_usdt = ctx.position.size.0.checked_mul(mid)?;
        let levels = self.try_levels(best_bid, best_ask, mid, pos_usdt)?;
        let orders = Self::try_inside_out(levels, mid)?;
        let mut actions = vec![Action::CancelAll];
        let mut i: usize = 0;
        while i < orders.len()
            invariant
                i <= orders@.len(),
                actions@ =~= seq![Action::CancelAll] + ladder_quotes(
                    *ctx.symbol,
                    orders@.take(i as int),
                ),
            decreases orders@.len() - i,
        {
            let order = orders[i];
            actions.push(
                Action::Quote(
                    make_post_only_intent(
                        ctx.symbol,
                        order.side,
                        Price(order.price),
                        Size(order.size),
                    ),
                ),
            );
            assert(ladder_quotes(*ctx.symbol, orders@.take(i + 1)) =~= ladder_quotes(
                *ctx.symbol,
                orders@.take(i as int),
            ).push(
                Action::Quote(
                    maker_order(*ctx.symbol, order.side, order.price, order.size),
                ),
            ));
            i = i + 1;
        }
        assert(orders@.take(i as int) =~= orders@);
        Some(actions)
    }

    fn try_cold_price(&self, side: Side, entry: Decimal, best_bid: Price, best_ask: Price)
        -> (result: Option<Decimal>)
        ensures
            result == cold_price(self.config, side, entry, best_bid, best_ask),
            result is Some && entry@ >= 0 && self.config.min_spread_bps@ >= 0 ==> {
                &&& side is Ask ==> result->0@ >= entry@
                &&& side is Bid ==> result->0@ <= entry@
            },
            result is Some && side is Ask && exact_difference(best_ask.0, self.config.tick_size)
                ==> result->0@ >= best_ask.0@ - self.config.tick_size@,
            result is Some && side is Bid && exact_sum(best_bid.0, self.config.tick_size)
                ==> result->0@ <= best_bid.0@ + self.config.tick_size@,
    {
        proof {
            let n = self.config.close_target_bps as int;
            let p = pow10(28);
            lemma_whole(n);
            lemma_pow10_positive(28);
            assert(n * p >= 0) by (nonlinear_arith)
                requires
                    n >= 0,
                    p >= 1,
            ;
        }
        let distance = if self.config.close_target_bps > 0 {
            try_fraction(Decimal::whole(self.config.close_target_bps as i64))?
        } else {
            try_fraction(self.config.min_spread_bps)?
        };
        let target = try_price_away(entry, side, distance)?;
        let touch = self.try_inside_touch(side, best_bid, best_ask)?;
        Some(
            match side {
                Side::Ask => target.max(touch),
                Side::Bid => target.min(touch),
            },
        )
    }

    fn cold_quote(&self, ctx: &StrategyContext<'_>, best_bid: Price, best_ask: Price) -> (result:
        Option<Vec<Action>>)
        ensures
            match cold_actions(self.config, *ctx, best_bid, best_ask) {
                Some(actions) => result is Some && result->0@ =~= actions,
                None => result is None,
            },
    {
        let side = match Self::close_side(ctx.position.size.0) {
            Some(side) => side,
            None => {
                return Some(vec![Action::CancelAll]);
            },
        };
        let entry = ctx.position.avg_entry.0;
        if !entry.is_positive() {
            return Some(vec![Action::CancelAll]);
        }
        let price = self.try_cold_price(side, entry, best_bid, best_ask)?;
        let crosses = match side {
            Side::Ask => price.is_at_most(best_bid.0),
            Side::Bid => price.is_at_least(best_ask.0),
        };
        if crosses {
            return Some(Vec::new());
        }
        let size = self.quote_size_at(price)?;
        let close = make_post_only_intent(ctx.symbol, side, Price(price), size);
        Some(vec![Action::CancelAll, Action::Quote(close)])
    }

    fn check_risk(&self, ctx: &StrategyContext<'_>, best_bid: Price, best_ask: Price) -> (result:
        Option<RiskDecision>)
        ensures
            result == guarded(self.config, *ctx, best_bid, best_ask),
    {
        if self.config.take_profit_bps == 0 && self.config.stop_loss_bps == 0 {
            return Some(RiskDecision::Hold);
        }
        let mid = try_midpoint(best_bid.0, best_ask.0)?;
        let policy = RiskConfig {
            take_profit_bps: self.config.take_profit_bps,
            stop_loss_bps: self.config.stop_loss_bps,
            take_profit_usdt_legacy: Decimal::zero(),
        };
        try_evaluate(ctx.position, Price(mid), policy)
    }

    fn on_prices(&mut self, ctx: &StrategyContext<'_>, best_bid: Price, best_ask: Price) -> (result:
        Option<Vec<Action>>)
        ensures
            follows(priced_step(*old(self), *ctx, best_bid, best_ask), result, *final(self)),
    {
        if let RiskDecision::Close { side, qty, .. } = self.check_risk(ctx, best_bid, best_ask)? {
            self.placed = false;
            let close = build_close(ctx.symbol, side, qty, best_bid, best_ask);
            return Some(vec![Action::CancelAll, close]);
        }
        match self.compute_top_targets(best_bid, best_ask)? {
            Some(_) => {
                self.placed = true;
                self.build_ladder(ctx, best_bid, best_ask)
            },
            None => {
                self.placed = false;
                self.cold_quote(ctx, best_bid, best_ask)
            },
        }
    }
}

impl Strategy for Hawk {
    type Config = HawkConfig;

    open spec fn initial(config: HawkConfig) -> Option<Hawk> {
        Some(Hawk { config, last_bid: None, last_ask: None, placed: false })
    }

    open spec fn event_step(state: Hawk, ctx: StrategyContext, event: MarketEvent) -> Option<
        (Hawk, Seq<Action>),
    > {
        hawk_step(state, ctx, event)
    }

    open spec fn rejection_step(
        state: Hawk,
        ctx: StrategyContext,
        intent: QuoteIntent,
        reason: Seq<char>,
    ) -> Option<(Hawk, Seq<Action>)> {
        Some((state, Seq::empty()))
    }

    fn try_new(config: HawkConfig) -> (result: Option<Hawk>) {
        Some(Hawk { config, last_bid: None, last_ask: None, placed: false })
    }

    fn name(&self) -> (result: &str)
        ensures
            result@ == "hawk"@,
    {
        "hawk"
    }

    fn try_on_event(&mut self, ctx: &StrategyContext<'_>, event: &MarketEvent) -> (result: Option<
        Vec<Action>,
    >) {
        match event {
            MarketEvent::BookUpdate { snapshot } => {
                if snapshot.bids.len() == 0 || snapshot.asks.len() == 0 {
                    return Some(Vec::new());
                }
                let best_bid = snapshot.bids[0].price;
                let best_ask = snapshot.asks[0].price;
                self.last_bid = Some(best_bid);
                self.last_ask = Some(best_ask);
                self.on_prices(ctx, best_bid, best_ask)
            },
            MarketEvent::Fill(_) | MarketEvent::Heartbeat { .. } => match (
                self.last_bid,
                self.last_ask,
            ) {
                (Some(best_bid), Some(best_ask)) => self.on_prices(ctx, best_bid, best_ask),
                _ => Some(Vec::new()),
            },
            MarketEvent::Trade { .. } => Some(Vec::new()),
        }
    }

    fn try_on_quote_rejected(
        &mut self,
        ctx: &StrategyContext<'_>,
        intent: &QuoteIntent,
        reason: &str,
    ) -> (result: Option<Vec<Action>>) {
        Some(Vec::new())
    }
}

proof fn lemma_levels_count(
    config: HawkConfig,
    best_bid: Price,
    best_ask: Price,
    mid: Decimal,
    pos_usdt: Decimal,
    n: nat,
)
    ensures
        level_orders(config, best_bid, best_ask, mid, pos_usdt, n) matches Some(orders) ==> {
            &&& forall|i: int|
                0 <= i < orders.len() ==> !side_capped(
                    config,
                    pos_usdt,
                    (#[trigger] orders[i]).side,
                )
            &&& !side_capped(config, pos_usdt, Side::Bid) && !side_capped(
                config,
                pos_usdt,
                Side::Ask,
            ) ==> orders.len() == 2 * n
        },
    decreases n,
{
    if n > 0 {
        lemma_levels_count(config, best_bid, best_ask, mid, pos_usdt, (n - 1) as nat);
    }
}

proof fn lemma_measured(orders: Seq<LadderOrder>, mid: Decimal, n: nat)
    ensures
        measured(orders, mid, n) matches Some(done) ==> done.len() == n && forall|i: int|
            0 <= i < n ==> (#[trigger] done[i]).side == orders[i].side && done[i].price
                == orders[i].price && done[i].size == orders[i].size && difference(
                orders[i].price,
                mid,
            ) is Some && done[i].distance == absolute(difference(orders[i].price, mid)->0),
    decreases n,
{
    if n > 0 {
        lemma_measured(orders, mid, (n - 1) as nat);
    }
}

/// The ladder is as long as it was and its innermost order comes first.
pub proof fn law_innermost_order_comes_first(
    orders: Seq<LadderOrder>,
    mid: Decimal,
    i: int,
    j: int,
)
    requires
        inside_out(orders, mid) is Some,
        0 <= i < j < orders.len(),
    ensures
        inside_out(orders, mid)->0.len() == orders.len(),
        inside_out(orders, mid)->0[i].distance@ <= inside_out(orders, mid)->0[j].distance@,
{
    lemma_measured(orders, mid, orders.len());
    law_sorted(measured(orders, mid, orders.len())->0);
}

/// Whether the quotes of a ladder avoid a side.
pub open spec fn avoids(orders: Seq<LadderOrder>, side: Side) -> bool {
    forall|i: int| 0 <= i < orders.len() ==> (#[trigger] orders[i]).side != side
}

proof fn lemma_inside_out_avoids(orders: Seq<LadderOrder>, mid: Decimal, side: Side)
    requires
        avoids(orders, side),
    ensures
        inside_out(orders, mid) matches Some(done) ==> avoids(done, side),
{
    broadcast use vstd::seq_lib::group_to_multiset_ensures;

    if orders.len() >= 2 {
        if let Some(done) = measured(orders, mid, orders.len()) {
            lemma_measured(orders, mid, orders.len());
            law_sorted(done);
            let out = sorted(done);
            assert forall|i: int| 0 <= i < out.len() implies (#[trigger] out[i]).side != side by {
                assert(out.to_multiset().count(out[i]) > 0) by {
                    assert(out.contains(out[i]));
                }
                assert(done.to_multiset().count(out[i]) > 0);
                assert(done.contains(out[i]));
                let k = choose|k: int| 0 <= k < done.len() && done[k] == out[i];
                assert(done[k].side == orders[k].side);
            }
        }
    }
}

/// A position at its cap is not deepened: the ladder has no order on its side.
pub proof fn law_capped_side_is_not_quoted(
    config: HawkConfig,
    ctx: StrategyContext,
    best_bid: Price,
    best_ask: Price,
    mid: Decimal,
    pos_usdt: Decimal,
    side: Side,
)
    requires
        midpoint(best_bid.0, best_ask.0) == Some(mid),
        product(ctx.position.size.0, mid) == Some(pos_usdt),
        side_capped(config, pos_usdt, side),
    ensures
        hot_actions(config, ctx, best_bid, best_ask) matches Some(actions) ==> !quotes_on(
            actions,
            side,
        ),
{
    let n = config.levels_per_side as nat;
    lemma_levels_count(config, best_bid, best_ask, mid, pos_usdt, n);
    if let Some(orders) = level_orders(config, best_bid, best_ask, mid, pos_usdt, n) {
        assert(avoids(orders, side));
        lemma_inside_out_avoids(orders, mid, side);
        if let Some(done) = inside_out(orders, mid) {
            let actions = seq![Action::CancelAll] + ladder_quotes(*ctx.symbol, done);
            assert forall|i: int| 0 <= i < actions.len() implies match #[trigger] actions[i] {
                Action::Quote(intent) => intent.side != side,
                Action::Requote { intent, .. } => intent.side != side,
                _ => true,
            } by {
                if i > 0 {
                    assert(actions[i] == ladder_quotes(*ctx.symbol, done)[i - 1]);
                }
            }
        }
    }
}

/// Below the cap the ladder has its full number of orders on both sides.
pub proof fn law_ladder_is_complete(
    config: HawkConfig,
    best_bid: Price,
    best_ask: Price,
    mid: Decimal,
    pos_usdt: Decimal,
)
    requires
        !side_capped(config, pos_usdt, Side::Bid),
        !side_capped(config, pos_usdt, Side::Ask),
    ensures
        level_orders(
            config,
            best_bid,
            best_ask,
            mid,
            pos_usdt,
            config.levels_per_side as nat,
        ) matches Some(orders) ==> orders.len() == 2 * config.levels_per_side,
{
    lemma_levels_count(config, best_bid, best_ask, mid, pos_usdt, config.levels_per_side as nat);
}

proof fn lemma_level_stands(
    config: HawkConfig,
    best_bid: Price,
    best_ask: Price,
    mid: Decimal,
    pos_usdt: Decimal,
    side: Side,
    k: int,
    n: nat,
) -> (at: int)
    requires
        level_orders(config, best_bid, best_ask, mid, pos_usdt, n) is Some,
        !side_capped(config, pos_usdt, side),
        0 <= k < n,
    ensures
        ({
            let orders = level_orders(config, best_bid, best_ask, mid, pos_usdt, n)->0;
            &&& 0 <= at < orders.len()
            &&& orders[at].side == side
            &&& level_price(config, side, best_bid, best_ask, mid, k) == Some(orders[at].price)
        }),
    decreases n,
{
    let before = level_orders(config, best_bid, best_ask, mid, pos_usdt, (n - 1) as nat)->0;
    if k < n - 1 {
        lemma_level_stands(
            config,
            best_bid,
            best_ask,
            mid,
            pos_usdt,
            side,
            k,
            (n - 1) as nat,
        )
    } else if side == Side::Bid || side_capped(config, pos_usdt, Side::Bid) {
        before.len() as int
    } else {
        before.len() as int + 1
    }
}

/// Behind the innermost level, a side that is not capped has an order at each
/// `inner_bps + k x step_bps` from the mid.
pub proof fn law_outer_levels_stand_off_the_mid(
    config: HawkConfig,
    best_bid: Price,
    best_ask: Price,
    mid: Decimal,
    pos_usdt: Decimal,
    side: Side,
    k: int,
)
    requires
        !side_capped(config, pos_usdt, side),
        1 <= k < config.levels_per_side,
    ensures
        level_orders(
            config,
            best_bid,
            best_ask,
            mid,
            pos_usdt,
            config.levels_per_side as nat,
        ) matches Some(orders) ==> exists|at: int|
            0 <= at < orders.len() && (#[trigger] orders[at]).side == side && price_away(
                mid,
                side,
                bps_fraction(config.inner_bps + config.step_bps * k),
            ) == Some(orders[at].price),
{
    let n = config.levels_per_side as nat;
    if let Some(orders) = level_orders(config, best_bid, best_ask, mid, pos_usdt, n) {
        let at = lemma_level_stands(config, best_bid, best_ask, mid, pos_usdt, side, k, n);
        assert(orders[at].side == side);
    }
}

/// While cold nothing but the closing side is quoted, at the target from the entry or
/// better, and without crossing the book.
pub proof fn law_cold_quotes_only_close(
    config: HawkConfig,
    ctx: StrategyContext,
    best_bid: Price,
    best_ask: Price,
    i: int,
)
    requires
        cold_actions(config, ctx, best_bid, best_ask) is Some,
        0 <= i < cold_actions(config, ctx, best_bid, best_ask)->0.len(),
    ensures
        cold_actions(config, ctx, best_bid, best_ask)->0[i] matches Action::Quote(order) ==> {
            let target = price_away(
                ctx.position.avg_entry.0,
                order.side,
                close_distance(config),
            );
            &&& hawk_close_side(ctx.position.size.0) == Some(order.side)
            &&& target is Some
            &&& match order.side {
                Side::Ask => order.price.0@ >= target->0@ && order.price.0@ > best_bid.0@,
                Side::Bid => order.price.0@ <= target->0@ && order.price.0@ < best_ask.0@,
            }
        },
{
}

proof fn lemma_ladder_keeps_to(symbol: Symbol, orders: Seq<LadderOrder>)
    ensures
        keeps_to(seq![Action::CancelAll] + ladder_quotes(symbol, orders), symbol),
{
    lemma_keeps_to_joined(seq![Action::CancelAll], ladder_quotes(symbol, orders), symbol);
}

proof fn lemma_hot_keeps_to(
    config: HawkConfig,
    ctx: StrategyContext,
    best_bid: Price,
    best_ask: Price,
)
    ensures
        hot_actions(config, ctx, best_bid, best_ask) matches Some(actions) ==> keeps_to(
            actions,
            *ctx.symbol,
        ),
{
    if let Some(mid) = midpoint(best_bid.0, best_ask.0) {
        if let Some(pos_usdt) = product(ctx.position.size.0, mid) {
            let n = config.levels_per_side as nat;
            if let Some(levels) = level_orders(config, best_bid, best_ask, mid, pos_usdt, n) {
                if let Some(orders) = inside_out(levels, mid) {
                    lemma_ladder_keeps_to(*ctx.symbol, orders);
                }
            }
        }
    }
}

proof fn lemma_cold_keeps_to(
    config: HawkConfig,
    ctx: StrategyContext,
    best_bid: Price,
    best_ask: Price,
)
    ensures
        cold_actions(config, ctx, best_bid, best_ask) matches Some(actions) ==> keeps_to(
            actions,
            *ctx.symbol,
        ),
{
}

proof fn lemma_priced_keeps_to(state: Hawk, ctx: StrategyContext, best_bid: Price, best_ask: Price)
    ensures
        priced_step(state, ctx, best_bid, best_ask) matches Some((_, actions)) ==> keeps_to(
            actions,
            *ctx.symbol,
        ),
{
    lemma_hot_keeps_to(state.config, ctx, best_bid, best_ask);
    lemma_cold_keeps_to(state.config, ctx, best_bid, best_ask);
}

/// No event and no rejection calls for an order in another instrument.
pub proof fn law_quotes_its_instrument(
    state: Hawk,
    ctx: StrategyContext,
    event: MarketEvent,
    intent: QuoteIntent,
    reason: Seq<char>,
)
    ensures
        Hawk::event_step(state, ctx, event) matches Some((_, actions)) ==> keeps_to(
            actions,
            *ctx.symbol,
        ),
        Hawk::rejection_step(state, ctx, intent, reason) matches Some((_, actions)) ==> keeps_to(
            actions,
            *ctx.symbol,
        ),
{
    match event {
        MarketEvent::BookUpdate { snapshot } => {
            if snapshot.bids@.len() > 0 && snapshot.asks@.len() > 0 {
                let bid = snapshot.bids@[0].price;
                let ask = snapshot.asks@[0].price;
                let seen = Hawk { last_bid: Some(bid), last_ask: Some(ask), ..state };
                lemma_priced_keeps_to(seen, ctx, bid, ask);
            }
        },
        _ => {
            if let (Some(bid), Some(ask)) = (state.last_bid, state.last_ask) {
                lemma_priced_keeps_to(state, ctx, bid, ask);
            }
        },
    }
}

/// The innermost level stands a tick inside its own touch, the others off the mid on their side.
pub proof fn law_innermost_level_is_inside_the_touch(
    config: HawkConfig,
    best_bid: Price,
    best_ask: Price,
    mid: Decimal,
    k: int,
)
    requires
        config.inner_bps <= u32::MAX,
        0 < k,
        config.inner_bps + config.step_bps * k <= u32::MAX,
    ensures
        level_price(config, Side::Bid, best_bid, best_ask, mid, 0) == sum(
            best_bid.0,
            config.tick_size,
        ),
        level_price(config, Side::Ask, best_bid, best_ask, mid, 0) == difference(
            best_ask.0,
            config.tick_size,
        ),
        level_price(config, Side::Bid, best_bid, best_ask, mid, k) == times(
            Some(mid),
            minus(
                Some(whole(1)),
                quotient(whole(config.inner_bps + config.step_bps * k), whole(10_000)),
            ),
        ),
        level_price(config, Side::Ask, best_bid, best_ask, mid, k) == times(
            Some(mid),
            plus(
                Some(whole(1)),
                quotient(whole(config.inner_bps + config.step_bps * k), whole(10_000)),
            ),
        ),
{
    assert(config.step_bps * 0 == 0);
}

/// The closing order is as far from the entry as configured, or as the spread that is asked for
/// where no distance is set, and never worse than a tick inside the touch.
pub proof fn law_cold_close_holds_out(
    config: HawkConfig,
    entry: Decimal,
    best_bid: Price,
    best_ask: Price,
    away: Decimal,
)
    requires
        config.close_target_bps > 0 ==> quotient(
            whole(config.close_target_bps as int),
            whole(10_000),
        ) == Some(away),
        config.close_target_bps == 0 ==> quotient(config.min_spread_bps, whole(10_000)) == Some(
            away,
        ),
    ensures
        cold_price(config, Side::Ask, entry, best_bid, best_ask) matches Some(price) ==> {
            let target = times(Some(entry), sum(whole(1), away));
            let touch = difference(best_ask.0, config.tick_size);
            &&& price@ >= target->0@ && price@ >= touch->0@
            &&& Some(price) == target || Some(price) == touch
        },
        cold_price(config, Side::Bid, entry, best_bid, best_ask) matches Some(price) ==> {
            let target = times(Some(entry), difference(whole(1), away));
            let touch = sum(best_bid.0, config.tick_size);
            &&& price@ <= target->0@ && price@ <= touch->0@
            &&& Some(price) == target || Some(price) == touch
        },
{
}

/// A long is closed by an ask, a short by a bid.
pub proof fn law_close_is_against_the_position(pos: Decimal)
    ensures
        hawk_close_side(pos) == Some(Side::Ask) <==> pos@ > 0,
        hawk_close_side(pos) == Some(Side::Bid) <==> pos@ < 0,
{
}

/// The ladder is open only where the spread reaches the least one asked for and leaves room for
/// a quote a tick inside either touch.
pub proof fn law_ladder_needs_a_wide_spread(
    config: HawkConfig,
    best_bid: Price,
    best_ask: Price,
    mid: Decimal,
    spread: Decimal,
    spread_bps: Decimal,
)
    requires
        config.tick_size@ > 0,
        config.min_spread_bps@ > 0,
        best_bid.0@ < best_ask.0@,
        midpoint(best_bid.0, best_ask.0) == Some(mid),
        difference(best_ask.0, best_bid.0) == Some(spread),
        spread@ == best_ask.0@ - best_bid.0@,
        reads_exactly(spread, mid, spread_bps),
        exact_sum(best_bid.0, config.tick_size),
        exact_difference(best_ask.0, config.tick_size),
    ensures
        ({
            let wide = (best_ask.0@ - best_bid.0@) * 10_000 * pow10(28) >= config.min_spread_bps@
                * mid@;
            let room = best_bid.0@ + config.tick_size@ < best_ask.0@ - config.tick_size@;
            let found = top_targets(config, best_bid, best_ask);
            &&& found is Some
            &&& found->0 is Some <==> wide && room
        }),
{
    lemma_reads_exactly(spread, mid, spread_bps, config.min_spread_bps@);
}

/// A position that the policy closes is flattened before anything is quoted; otherwise the ladder
/// is quoted on an open gate and only the close on a shut one.
pub proof fn law_policy_comes_first(
    state: Hawk,
    ctx: StrategyContext,
    best_bid: Price,
    best_ask: Price,
    decision: RiskDecision,
)
    requires
        guarded(state.config, ctx, best_bid, best_ask) == Some(decision),
    ensures
        priced_step(state, ctx, best_bid, best_ask) matches Some((next, actions)) ==> {
            &&& decision matches RiskDecision::Close { side, qty, .. } ==> !next.placed && actions
                == flatten(*ctx.symbol, side, qty.0, best_bid, best_ask)
            &&& decision is Hold && top_targets(state.config, best_bid, best_ask)->0 is Some
                ==> next.placed && Some(actions) == hot_actions(
                state.config,
                ctx,
                best_bid,
                best_ask,
            )
            &&& decision is Hold && top_targets(state.config, best_bid, best_ask)->0 is None
                ==> !next.placed && Some(actions) == cold_actions(
                state.config,
                ctx,
                best_bid,
                best_ask,
            )
        },
{
}

/// Every order of the ladder is in the size that its notional buys at its own price.
pub proof fn law_levels_are_sized_at_their_price(
    config: HawkConfig,
    side: Side,
    best_bid: Price,
    best_ask: Price,
    mid: Decimal,
    capped: bool,
    k: int,
)
    ensures
        level_order(config, side, best_bid, best_ask, mid, capped, k) matches Some(orders) ==> {
            &&& capped ==> orders.len() == 0
            &&& !capped ==> orders.len() == 1 && orders[0].side == side && level_price(
                config,
                side,
                best_bid,
                best_ask,
                mid,
                k,
            ) == Some(orders[0].price) && floored_lot_size(
                config.notional_per_order,
                orders[0].price,
                config.step_size,
                config.min_notional,
            ) == Some(orders[0].size)
        },
{
}

} // verus!
