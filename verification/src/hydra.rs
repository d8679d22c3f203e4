//! Straddle entry, pyramid and averaging adds, bracketed exit.
//!
//! 1. Idle: a passive bid and ask rest at `mid ± entry_offset_bps`.
//! 2. The first fill locks the direction and the first entry price; the other leg
//!    is cancelled and a passive take-profit is posted.
//! 3. Every further `pyramid_step_bps` in favour triggers one taker add, up to
//!    `pyramid_max_adds`; every further `dca_step_bps` against one averaging add, up
//!    to `dca_max_adds`. A cooldown separates adds and a cap bounds the position.
//! 4. The take-profit follows the average entry. The stop-loss is anchored on the
//!    first fill, never on the average.

use crate::decimal::{
    absolute, difference, exact_difference, exact_quotient, floor_int, floor_of, greater,
    lemma_pow10_positive, lemma_quotient_keeps_whole_order, lemma_whole, lemma_whole_part, minus,
    negated, over, plus, pow10, product, quotient, rounds_quotient, times, whole, whole_part,
    MAX_MANTISSA, Decimal,
};
use crate::market::{
    maker_order, taker_order, MarketEvent, Price, QuoteIntent, Side, Size, Symbol, TimeInForce,
};
use crate::quoting::{
    bps_fraction, capped_product, elapsed, fires_at, lemma_fires_at, lemma_lies_away,
    lemma_reads_bps_turned, lemma_reads_exactly, lies_away, make_post_only_intent, measures_exactly,
    midpoint, moves_exactly, price_away, reads_bps, reads_exactly, saturating_product,
    try_bps_fraction, try_bps_of, try_midpoint, try_price_away,
};
use crate::risk::{build_close, opposing_touch};
use crate::sizing::{leg_size, stepped, stepped_up, try_leg_size, try_stepped, try_stepped_up};
use crate::strategy::{follows, keeps_to, lemma_keeps_to_joined, Action, Strategy, StrategyContext};
use vstd::prelude::*;

verus! {

/// Configuration for [`Hydra`].
#[derive(Clone, Copy, Debug)]
pub struct HydraConfig {
    /// Fiat notional per straddle leg and per add.
    pub notional_per_order: Decimal,
    /// Venue tick size.
    pub tick_size: Decimal,
    /// Venue lot step size.
    pub step_size: Decimal,
    /// Minimum order notional required by the venue.
    pub min_notional: Decimal,
    /// Distance from mid of each straddle leg, in bps.
    pub entry_offset_bps: u32,
    /// Favourable drift per pyramid add, in bps.
    pub pyramid_step_bps: u32,
    /// Most pyramid adds. `0` disables them.
    pub pyramid_max_adds: u32,
    /// Adverse drift per averaging add, in bps.
    pub dca_step_bps: u32,
    /// Most averaging adds. `0` disables them.
    pub dca_max_adds: u32,
    /// Take-profit distance from the average entry, in bps. `0` disables it.
    pub tp_bps_from_avg: u32,
    /// Stop-loss distance from the first fill, in bps. `0` disables it.
    pub sl_bps_from_first: u32,
    /// Hard position cap in quote currency. `0` disables it.
    pub max_position_usdt: Decimal,
    /// Least time between adds, in ms.
    pub add_cooldown_ms: u64,
}

/// What is known of a position while it is held.
#[derive(Clone, Copy, Debug, PartialEq)]
pub struct Holding {
    /// Whether the position is long.
    pub side_long: bool,
    /// Price of the very first fill.
    pub first_entry_price: Decimal,
    /// Pyramid bands already used.
    pub pyramid_bands_placed: u32,
    /// Averaging bands already used.
    pub dca_bands_placed: u32,
    /// Time of the last add, in ns.
    pub last_add_ts_ns: u64,
    /// Price of the resting take-profit.
    pub last_tp_price: Option<Price>,
}

/// The state machine.
#[derive(Clone, Copy, Debug, PartialEq)]
pub enum Phase {
    /// No position.
    Idle,
    /// A position is held in one direction.
    Holding(Holding),
}

/// Straddle-and-add strategy.
pub struct Hydra {
    /// Settings.
    pub config: HydraConfig,
    /// State machine.
    pub phase: Phase,
    /// Best bid last seen.
    pub last_bid: Option<Price>,
    /// Best ask last seen.
    pub last_ask: Option<Price>,
    /// Whether the straddle is out in this idle cycle.
    pub straddle_placed: bool,
}

impl View for Hydra {
    type V = Self;

    open spec fn view(&self) -> Self {
        *self
    }
}

/// Order size at a price: the configured notional on the lot grid, one step where
/// that rounds to nothing but is over half a step, and at least the minimum
/// notional.
pub open spec fn hydra_size(config: HydraConfig, price: Price) -> Option<Decimal> {
    match leg_size(config.notional_per_order, price.0, config.step_size) {
        None => None,
        Some(size) => if price.0@ > 0 && config.min_notional@ > 0 {
            match product(size, price.0) {
                None => None,
                Some(value) => if value@ < config.min_notional@ {
                    stepped_up(quotient(config.min_notional, price.0), config.step_size)
                } else {
                    Some(size)
                },
            }
        } else {
            Some(size)
        },
    }
}

/// A straddle leg: a passive quote, or nothing where it could take liquidity or has
/// no size.
pub open spec fn leg(config: HydraConfig, symbol: Symbol, side: Side, price: Price, rests: bool)
    -> Option<Seq<Action>> {
    if !rests {
        Some(Seq::empty())
    } else {
        match hydra_size(config, price) {
            None => None,
            Some(size) => Some(
                if size@ > 0 {
                    seq![Action::Quote(maker_order(symbol, side, price.0, size))]
                } else {
                    Seq::empty()
                },
            ),
        }
    }
}

/// The straddle around the mid of these touches.
pub open spec fn straddle(config: HydraConfig, symbol: Symbol, best_bid: Price, best_ask: Price)
    -> Option<Seq<Action>> {
    match midpoint(best_bid.0, best_ask.0) {
        None => None,
        Some(mid) => {
            let offset = bps_fraction(config.entry_offset_bps as int);
            match (
                stepped(price_away(mid, Side::Bid, offset), config.tick_size),
                stepped(price_away(mid, Side::Ask, offset), config.tick_size),
            ) {
                (Some(bid), Some(ask)) => match (
                    leg(
                        config,
                        symbol,
                        Side::Bid,
                        Price(bid),
                        bid@ > 0 && bid@ < best_ask.0@,
                    ),
                    leg(config, symbol, Side::Ask, Price(ask), ask@ > best_bid.0@),
                ) {
                    (Some(bids), Some(asks)) => Some(bids + asks),
                    _ => None,
                },
                _ => None,
            }
        },
    }
}

/// Drift of `mid` from `reference` in bps, positive in favour of the position; zero
/// where the reference is not positive.
pub open spec fn drift_in_favour(mid: Decimal, reference: Decimal, side_long: bool) -> Option<
    Decimal,
> {
    if reference@ <= 0 {
        Some(whole(0))
    } else {
        match times(over(difference(mid, reference), Some(reference)), Some(whole(10_000))) {
            None => None,
            Some(raw) => Some(
                if side_long {
                    raw
                } else {
                    negated(raw)
                },
            ),
        }
    }
}

/// The side that closes a position.
pub open spec fn exit_side(side_long: bool) -> Side {
    if side_long {
        Side::Ask
    } else {
        Side::Bid
    }
}

/// Take-profit price for an average entry.
pub open spec fn tp_price(config: HydraConfig, side_long: bool, avg_entry: Decimal) -> Option<
    Decimal,
> {
    stepped(
        price_away(avg_entry, exit_side(side_long), bps_fraction(config.tp_bps_from_avg as int)),
        config.tick_size,
    )
}

/// The take-profit order and its price: passive at the target, or an IOC at the
/// opposing touch where the market is already past it. The inner `None` is where
/// there is none to place.
pub open spec fn take_profit(
    config: HydraConfig,
    symbol: Symbol,
    side_long: bool,
    position_qty: Decimal,
    avg_entry: Decimal,
    best_bid: Price,
    best_ask: Price,
) -> Option<Option<(Action, Price)>> {
    let side = exit_side(side_long);
    if config.tp_bps_from_avg == 0 || avg_entry@ <= 0 {
        Some(None)
    } else {
        match stepped(Some(absolute(position_qty)), config.step_size) {
            None => None,
            Some(qty) => if qty@ <= 0 {
                Some(None)
            } else {
                match tp_price(config, side_long, avg_entry) {
                    None => None,
                    Some(target) => {
                        let past = match side {
                            Side::Ask => target@ <= best_bid.0@,
                            Side::Bid => target@ >= best_ask.0@,
                        };
                        let touch = opposing_touch(side, best_bid, best_ask);
                        Some(
                            Some(
                                if past {
                                    (Action::Quote(taker_order(symbol, side, touch.0, qty)), touch)
                                } else {
                                    (
                                        Action::Quote(maker_order(symbol, side, target, qty)),
                                        Price(target),
                                    )
                                },
                            ),
                        )
                    },
                }
            },
        }
    }
}

/// A taker add, or the inner `None` where it has no size or would breach the cap.
pub open spec fn add_order(
    config: HydraConfig,
    ctx: StrategyContext,
    side_long: bool,
    mid: Decimal,
    best_bid: Price,
    best_ask: Price,
) -> Option<Option<Action>> {
    let side = if side_long {
        Side::Bid
    } else {
        Side::Ask
    };
    let touch = opposing_touch(side, best_bid, best_ask);
    match hydra_size(config, touch) {
        None => None,
        Some(size) => if size@ <= 0 {
            Some(None)
        } else {
            let order = Action::Quote(taker_order(*ctx.symbol, side, touch.0, size));
            if config.max_position_usdt@ > 0 {
                match times(plus(Some(absolute(ctx.position.size.0)), Some(size)), Some(mid)) {
                    None => None,
                    Some(projected) => if projected@ > config.max_position_usdt@ {
                        Some(None)
                    } else {
                        Some(Some(order))
                    },
                }
            } else {
                Some(Some(order))
            }
        },
    }
}

/// How many whole bands of `step_bps` fit into `bps`, at most `max`; none without a
/// step or where `bps` is negative. A count beyond `u32` counts as the largest.
pub open spec fn bands(bps: Decimal, step_bps: u32, max: u32) -> Option<u32> {
    if whole(step_bps as int)@ <= 0 {
        Some(0)
    } else {
        match quotient(greater(bps, whole(0)), whole(step_bps as int)) {
            None => None,
            Some(ratio) => {
                let count = floor_of(ratio);
                let reached = if count@ >= 0 && whole_part(count) <= u32::MAX {
                    whole_part(count) as u32
                } else {
                    u32::MAX
                };
                Some(
                    if reached < max {
                        reached
                    } else {
                        max
                    },
                )
            },
        }
    }
}

/// What the adds of one event do: the action, if any, and the position facts after
/// it. At most one add fires.
pub open spec fn adds(
    config: HydraConfig,
    ctx: StrategyContext,
    held: Holding,
    drift: Decimal,
    mid: Decimal,
    best_bid: Price,
    best_ask: Price,
) -> Option<(Holding, Option<Action>)> {
    let ready = elapsed(ctx.now.0, held.last_add_ts_ns) >= capped_product(
        config.add_cooldown_ms as int,
        1_000_000,
    );
    match (
        bands(drift, config.pyramid_step_bps, config.pyramid_max_adds),
        bands(negated(drift), config.dca_step_bps, config.dca_max_adds),
    ) {
        (Some(favourable), Some(adverse)) => {
            let order = add_order(config, ctx, held.side_long, mid, best_bid, best_ask);
            let pyramid_due = ready && favourable > held.pyramid_bands_placed;
            let dca_due = ready && adverse > held.dca_bands_placed;
            if !pyramid_due && !dca_due {
                Some((held, None))
            } else {
                match order {
                    None => None,
                    Some(None) => Some((held, None)),
                    Some(Some(action)) => Some(
                        (
                            if pyramid_due {
                                Holding {
                                    pyramid_bands_placed: favourable,
                                    last_add_ts_ns: ctx.now.0,
                                    ..held
                                }
                            } else {
                                Holding {
                                    dca_bands_placed: adverse,
                                    last_add_ts_ns: ctx.now.0,
                                    ..held
                                }
                            },
                            Some(action),
                        ),
                    ),
                }
            }
        },
        _ => None,
    }
}

/// Whether the resting take-profit is missing or more than a tick off its target.
pub open spec fn tp_stale(config: HydraConfig, held: Holding, avg_entry: Decimal) -> Option<bool> {
    match tp_price(config, held.side_long, avg_entry) {
        None => None,
        Some(fresh) => match held.last_tp_price {
            None => Some(true),
            Some(prev) => match difference(fresh, prev.0) {
                None => None,
                Some(gap) => Some(absolute(gap)@ > config.tick_size@),
            },
        },
    }
}

/// Refreshing the take-profit after an event without an add.
pub open spec fn tp_refreshed(
    config: HydraConfig,
    ctx: StrategyContext,
    held: Holding,
    best_bid: Price,
    best_ask: Price,
) -> Option<(Holding, Seq<Action>)> {
    let avg_entry = ctx.position.avg_entry.0;
    if config.tp_bps_from_avg == 0 {
        Some((held, Seq::empty()))
    } else {
        match tp_stale(config, held, avg_entry) {
            None => None,
            Some(stale) => if !stale {
                Some((held, Seq::empty()))
            } else {
                match take_profit(
                    config,
                    *ctx.symbol,
                    held.side_long,
                    ctx.position.size.0,
                    avg_entry,
                    best_bid,
                    best_ask,
                ) {
                    None => None,
                    Some(None) => Some((held, Seq::empty())),
                    Some(Some((action, price))) => Some(
                        (
                            Holding { last_tp_price: Some(price), ..held },
                            seq![Action::CancelAll, action],
                        ),
                    ),
                }
            },
        }
    }
}

/// Whether the stop-loss has been reached.
pub open spec fn stopped_out(config: HydraConfig, drift: Decimal) -> bool {
    config.sl_bps_from_first > 0 && negated(drift)@ >= whole(config.sl_bps_from_first as int)@
}

/// An event while holding.
pub open spec fn holding_step(
    state: Hydra,
    ctx: StrategyContext,
    held: Holding,
    mid: Decimal,
    best_bid: Price,
    best_ask: Price,
) -> Option<(Hydra, Seq<Action>)> {
    match drift_in_favour(mid, held.first_entry_price, held.side_long) {
        None => None,
        Some(drift) => if stopped_out(state.config, drift) {
            let side = exit_side(held.side_long);
            Some(
                (
                    Hydra { phase: Phase::Idle, straddle_placed: false, ..state },
                    seq![
                        Action::CancelAll,
                        Action::Quote(
                            taker_order(
                                *ctx.symbol,
                                side,
                                opposing_touch(side, best_bid, best_ask).0,
                                absolute(ctx.position.size.0),
                            ),
                        ),
                    ],
                ),
            )
        } else {
            match adds(state.config, ctx, held, drift, mid, best_bid, best_ask) {
                None => None,
                Some((grown, Some(add))) => Some(
                    (Hydra { phase: Phase::Holding(grown), ..state }, seq![add]),
                ),
                Some((same, None)) => match tp_refreshed(
                    state.config,
                    ctx,
                    same,
                    best_bid,
                    best_ask,
                ) {
                    None => None,
                    Some((next, actions)) => Some(
                        (Hydra { phase: Phase::Holding(next), ..state }, actions),
                    ),
                },
            }
        },
    }
}

/// The first fill: everything is cancelled, the direction and first entry are
/// locked, and the take-profit is placed.
pub open spec fn first_fill(state: Hydra, ctx: StrategyContext, best_bid: Price, best_ask: Price)
    -> Option<(Hydra, Seq<Action>)> {
    let long = ctx.position.size.0@ > 0;
    let entry = ctx.position.avg_entry.0;
    match take_profit(
        state.config,
        *ctx.symbol,
        long,
        ctx.position.size.0,
        entry,
        best_bid,
        best_ask,
    ) {
        None => None,
        Some(tp) => {
            let held = Holding {
                side_long: long,
                first_entry_price: entry,
                pyramid_bands_placed: 0,
                dca_bands_placed: 0,
                last_add_ts_ns: ctx.now.0,
                last_tp_price: match tp {
                    Some((_, price)) => Some(price),
                    None => None,
                },
            };
            Some(
                (
                    Hydra { phase: Phase::Holding(held), straddle_placed: false, ..state },
                    match tp {
                        Some((action, _)) => seq![Action::CancelAll, action],
                        None => seq![Action::CancelAll],
                    },
                ),
            )
        },
    }
}

/// An event on known touches.
pub open spec fn touch_step(state: Hydra, ctx: StrategyContext, best_bid: Price, best_ask: Price)
    -> Option<(Hydra, Seq<Action>)> {
    let flat = ctx.position.size.0@ == 0;
    if best_ask.0@ <= best_bid.0@ {
        Some((state, Seq::empty()))
    } else {
        match midpoint(best_bid.0, best_ask.0) {
            None => None,
            Some(mid) => match state.phase {
                Phase::Idle => if !flat {
                    first_fill(state, ctx, best_bid, best_ask)
                } else if state.straddle_placed {
                    Some((state, Seq::empty()))
                } else {
                    match straddle(state.config, *ctx.symbol, best_bid, best_ask) {
                        None => None,
                        Some(legs) => Some(
                            (
                                Hydra { straddle_placed: true, ..state },
                                seq![Action::CancelAll] + legs,
                            ),
                        ),
                    }
                },
                Phase::Holding(held) => if flat {
                    Some(
                        (
                            Hydra { phase: Phase::Idle, straddle_placed: false, ..state },
                            seq![Action::CancelAll],
                        ),
                    )
                } else {
                    holding_step(state, ctx, held, mid, best_bid, best_ask)
                },
            },
        }
    }
}

proof fn lemma_bands(least: int, step: int, ratio: Decimal, bps: int)
    requires
        step > 0,
        least >= 0,
        bps > 0 ==> least == bps,
        bps <= 0 ==> least == 0,
        rounds_quotient(least, step * pow10(28), ratio@),
        -MAX_MANTISSA <= floor_int(ratio) <= MAX_MANTISSA,
        floor_of(ratio)@ <= ratio@ < floor_of(ratio)@ + pow10(28),
        floor_of(ratio)@ >= 0,
    ensures
        whole_part(floor_of(ratio)) == floor_int(ratio),
        floor_int(ratio) >= 0,
        bps <= 0 ==> floor_int(ratio) == 0,
        forall|k: int|
            0 <= k <= u32::MAX && #[trigger] (k * step) * pow10(28) <= bps ==> k <= floor_int(
                ratio,
            ),
        ratio@ * (step * pow10(28)) == least * pow10(28) ==> floor_int(ratio) * step * pow10(28)
            <= least,
{
    let (n, p) = (floor_int(ratio), pow10(28));
    lemma_pow10_positive(28);
    lemma_whole(n);
    lemma_whole_part(n);
    assert(n >= 0) by (nonlinear_arith)
        requires
            n * p >= 0,
            p >= 1,
    ;
    if bps <= 0 {
        lemma_quotient_keeps_whole_order(least, step * p, ratio@, 0);
        assert(0 * (step * p) == 0 && 0 * p == 0);
        assert(n == 0) by (nonlinear_arith)
            requires
                n * p <= 0,
                n >= 0,
                p >= 1,
        ;
    }
    assert forall|k: int| 0 <= k <= u32::MAX && #[trigger] (k * step) * p <= bps implies k <= n by {
        assert(k * (step * p) == (k * step) * p) by (nonlinear_arith);
        if bps > 0 {
            lemma_quotient_keeps_whole_order(least, step * p, ratio@, k);
            assert(k <= n) by (nonlinear_arith)
                requires
                    k * p <= ratio@,
                    ratio@ < n * p + p,
                    p >= 1,
            ;
        } else {
            assert(k == 0) by (nonlinear_arith)
                requires
                    (k * step) * p <= 0,
                    k >= 0,
                    step > 0,
                    p >= 1,
            ;
        }
    }
    let r = ratio@;
    assert(r * (step * p) == least * p ==> n * step * p <= least) by (nonlinear_arith)
        requires
            n * p <= r,
            step > 0,
            p >= 1,
    ;
}

impl Hydra {
    fn quote_size(&self, price: Price) -> (result: Option<Decimal>)
        ensures
            result == hydra_size(self.config, price),
    {
        let step = self.config.step_size;
        let size = try_leg_size(self.config.notional_per_order, price.0, step)?;
        if price.0.is_positive() && self.config.min_notional.is_positive() {
            let current = size.checked_mul(price.0)?;
            if current.is_less(self.config.min_notional) {
                let needed = self.config.min_notional.checked_div(price.0)?;
                return try_stepped_up(needed, step);
            }
        }
        Some(size)
    }

    fn build_leg(&self, symbol: &Symbol, side: Side, price: Price, rests: bool) -> (result: Option<
        Vec<Action>,
    >)
        ensures
            match leg(self.config, *symbol, side, price, rests) {
                Some(actions) => result is Some && result->0@ =~= actions,
                None => result is None,
            },
    {
        if !rests {
            return Some(Vec::new());
        }
        let size = self.quote_size(price)?;
        if size.is_positive() {
            Some(vec![Action::Quote(make_post_only_intent(symbol, side, price, Size(size)))])
        } else {
            Some(Vec::new())
        }
    }

    fn build_straddle(&self, symbol: &Symbol, best_bid: Price, best_ask: Price) -> (result: Option<
        Vec<Action>,
    >)
        ensures
            match straddle(self.config, *symbol, best_bid, best_ask) {
                Some(actions) => result is Some && result->0@ =~= actions,
                None => result is None,
            },
    {
        let tick = self.config.tick_size;
        let mid = try_midpoint(best_bid.0, best_ask.0)?;
        let offset = Decimal::whole(self.config.entry_offset_bps as i64).checked_div(
            Decimal::whole(10_000),
        )?;
        let bid = try_stepped(try_price_away(mid, Side::Bid, offset)?, tick)?;
        let ask = try_stepped(try_price_away(mid, Side::Ask, offset)?, tick)?;
        let bid_rests = bid.is_positive() && bid.is_less(best_ask.0);
        let ask_rests = ask.is_more(best_bid.0);
        let mut actions = self.build_leg(symbol, Side::Bid, Price(bid), bid_rests)?;
        let mut asks = self.build_leg(symbol, Side::Ask, Price(ask), ask_rests)?;
        actions.append(&mut asks);
        Some(actions)
    }

    fn compute_tp_price(&self, side_long: bool, avg_entry: Decimal) -> (result: Option<Decimal>)
        ensures
            result == tp_price(self.config, side_long, avg_entry),
            result is Some ==> {
                let bps = self.config.tp_bps_from_avg as int;
                let side = if side_long {
                    Side::Ask
                } else {
                    Side::Bid
                };
                let raw = price_away(avg_entry, side, bps_fraction(bps))->0;
                &&& result == stepped(Some(raw), self.config.tick_size)
                &&& side_long && avg_entry@ >= 0 ==> raw@ >= avg_entry@
                &&& !side_long && avg_entry@ >= 0 ==> raw@ <= avg_entry@
                &&& moves_exactly(avg_entry, side, bps_fraction(bps)->0) ==> lies_away(
                    raw@,
                    avg_entry@,
                    side,
                    bps,
                )
            },
    {
        let bp = try_bps_fraction(self.config.tp_bps_from_avg)?;
        let side = if side_long {
            Side::Ask
        } else {
            Side::Bid
        };
        let raw = try_price_away(avg_entry, side, bp)?;
        proof {
            if moves_exactly(avg_entry, side, bp) {
                lemma_whole(1);
                lemma_lies_away(raw@, avg_entry@, side, self.config.tp_bps_from_avg as int);
            }
        }
        try_stepped(raw, self.config.tick_size)
    }

    fn build_tp_intent(
        &self,
        symbol: &Symbol,
        side_long: bool,
        position_qty: Decimal,
        avg_entry: Decimal,
        best_bid: Price,
        best_ask: Price,
    ) -> (result: Option<Option<(Action, Price)>>)
        ensures
            result == take_profit(
                self.config,
                *symbol,
                side_long,
                position_qty,
                avg_entry,
                best_bid,
                best_ask,
            ),
    {
        if self.config.tp_bps_from_avg == 0 || !avg_entry.is_positive() {
            return Some(None);
        }
        let qty = try_stepped(position_qty.abs(), self.config.step_size)?;
        if !qty.is_positive() {
            return Some(None);
        }
        let target = self.compute_tp_price(side_long, avg_entry)?;
        let (side, touch, past) = if side_long {
            (Side::Ask, best_bid, target.is_at_most(best_bid.0))
        } else {
            (Side::Bid, best_ask, target.is_at_least(best_ask.0))
        };
        if past {
            return Some(
                Some((build_close(symbol, side, Size(qty), best_bid, best_ask), touch)),
            );
        }
        let price = Price(target);
        Some(Some((Action::Quote(make_post_only_intent(symbol, side, price, Size(qty))), price)))
    }

    fn maybe_add(
        &self,
        ctx: &StrategyContext<'_>,
        side_long: bool,
        mid: Decimal,
        best_bid: Price,
        best_ask: Price,
    ) -> (result: Option<Option<Action>>)
        ensures
            result == add_order(self.config, *ctx, side_long, mid, best_bid, best_ask),
    {
        let (side, touch) = if side_long {
            (Side::Bid, best_ask)
        } else {
            (Side::Ask, best_bid)
        };
        let size = self.quote_size(touch)?;
        if !size.is_positive() {
            return Some(None);
        }
        let cap = self.config.max_position_usdt;
        if cap.is_positive() {
            let projected = ctx.position.size.0.abs().checked_add(size)?.checked_mul(mid)?;
            if projected.is_more(cap) {
                return Some(None);
            }
        }
        Some(Some(build_close(ctx.symbol, side, Size(size), best_bid, best_ask)))
    }

    fn count_bands(bps: Decimal, step_bps: u32, max: u32) -> (result: Option<u32>)
        ensures
            result == bands(bps, step_bps, max),
            result is Some ==> {
                &&& result->0 <= max
                &&& bps@ <= 0 ==> result->0 == 0
                &&& forall|k: int|
                    0 <= k <= max && step_bps > 0 && #[trigger] (k * step_bps) * pow10(28) <= bps@
                        ==> k <= result->0
                &&& step_bps > 0 && bps@ >= 0 && exact_quotient(bps, whole(step_bps as int))
                    ==> result->0 * step_bps * pow10(28) <= bps@
            },
    {
        proof {
            lemma_whole(step_bps as int);
            lemma_whole(0);
            lemma_pow10_positive(28);
            let (n, p) = (step_bps as int, pow10(28));
            assert(n > 0 <==> n * p > 0) by (nonlinear_arith)
                requires
                    p >= 1,
            ;
        }
        let step = Decimal::whole(step_bps as i64);
        if !step.is_positive() {
            return Some(0);
        }
        let least = bps.max(Decimal::zero());
        let ratio = least.checked_div(step)?;
        let count = ratio.floor();
        proof {
            lemma_bands(least@, step_bps as int, ratio, bps@);
        }
        let reached: u32 = match count.to_u32() {
            Some(n) => n,
            None => u32::MAX,
        };
        let fitting: u32 = if reached < max {
            reached
        } else {
            max
        };
        proof {
            let (r, n, s, p) = (fitting as int, floor_int(ratio), step_bps as int, pow10(28));
            assert(r <= n);
            assert(r * s * p <= n * s * p) by (nonlinear_arith)
                requires
                    r <= n,
                    s >= 0,
                    p >= 1,
            ;
        }
        Some(fitting)
    }

    fn try_adds(
        &self,
        ctx: &StrategyContext<'_>,
        held: Holding,
        drift: Decimal,
        mid: Decimal,
        best_bid: Price,
        best_ask: Price,
    ) -> (result: Option<(Holding, Option<Action>)>)
        ensures
            result == adds(self.config, *ctx, held, drift, mid, best_bid, best_ask),
    {
        let c = self.config;
        let cooldown_ns: u64 = saturating_product(c.add_cooldown_ms, 1_000_000);
        let ready = ctx.now.0.saturating_sub(held.last_add_ts_ns) >= cooldown_ns;
        let favourable: u32 = Self::count_bands(drift, c.pyramid_step_bps, c.pyramid_max_adds)?;
        let adverse: u32 = Self::count_bands(drift.negate(), c.dca_step_bps, c.dca_max_adds)?;
        let pyramid_due = ready && favourable > held.pyramid_bands_placed;
        let dca_due = ready && adverse > held.dca_bands_placed;
        if !pyramid_due && !dca_due {
            return Some((held, None));
        }
        match self.maybe_add(ctx, held.side_long, mid, best_bid, best_ask)? {
            None => Some((held, None)),
            Some(action) => {
                let mut next = held;
                if pyramid_due {
                    next.pyramid_bands_placed = favourable;
                } else {
                    next.dca_bands_placed = adverse;
                }
                next.last_add_ts_ns = ctx.now.0;
                Some((next, Some(action)))
            },
        }
    }

    fn refresh_tp(
        &self,
        ctx: &StrategyContext<'_>,
        held: Holding,
        best_bid: Price,
        best_ask: Price,
    ) -> (result: Option<(Holding, Vec<Action>)>)
        ensures
            match tp_refreshed(self.config, *ctx, held, best_bid, best_ask) {
                Some((next, actions)) => result is Some && (result->0).0 == next && (
                result->0).1@ =~= actions,
                None => result is None,
            },
    {
        if self.config.tp_bps_from_avg == 0 {
            return Some((held, Vec::new()));
        }
        let avg_entry = ctx.position.avg_entry.0;
        let fresh = self.compute_tp_price(held.side_long, avg_entry)?;
        let stale = match held.last_tp_price {
            None => true,
            Some(prev) => fresh.checked_sub(prev.0)?.abs().is_more(self.config.tick_size),
        };
        if !stale {
            return Some((held, Vec::new()));
        }
        match self.build_tp_intent(
            ctx.symbol,
            held.side_long,
            ctx.position.size.0,
            avg_entry,
            best_bid,
            best_ask,
        )? {
            None => Some((held, Vec::new())),
            Some((action, price)) => {
                let mut next = held;
                next.last_tp_price = Some(price);
                Some((next, vec![Action::CancelAll, action]))
            },
        }
    }

    fn on_holding(
        &mut self,
        ctx: &StrategyContext<'_>,
        held: Holding,
        mid: Decimal,
        best_bid: Price,
        best_ask: Price,
    ) -> (result: Option<Vec<Action>>)
        ensures
            follows(
                holding_step(*old(self), *ctx, held, mid, best_bid, best_ask),
                result,
                *final(self),
            ),
            result is Some && old(self).config.sl_bps_from_first == 0 ==> final(self).phase is Holding,
            result is Some && old(self).config.sl_bps_from_first > 0 && held.first_entry_price@ > 0
                && exact_difference(mid, held.first_entry_price) && measures_exactly(
                difference(mid, held.first_entry_price)->0,
                held.first_entry_price,
            ) ==> fires_at(
                if held.side_long {
                    held.first_entry_price@ - mid@
                } else {
                    mid@ - held.first_entry_price@
                },
                held.first_entry_price@,
                old(self).config.sl_bps_from_first as int,
                final(self).phase is Idle,
            ),
    {
        let drift = drift_bps(mid, held.first_entry_price, held.side_long)?;
        proof {
            let entry = held.first_entry_price;
            let bps = self.config.sl_bps_from_first as int;
            lemma_whole(bps);
            lemma_whole(-bps);
            assert((-bps) * pow10(28) == -(bps * pow10(28))) by (nonlinear_arith);
            if entry@ > 0 && exact_difference(mid, entry) && measures_exactly(
                difference(mid, entry)->0,
                entry,
            ) {
                let gain = if held.side_long {
                    mid@ - entry@
                } else {
                    entry@ - mid@
                };
                lemma_fires_at(gain, entry@, drift@, -bps);
            }
        }
        let sl_hit = self.config.sl_bps_from_first > 0 && drift.negate().is_at_least(
            Decimal::whole(self.config.sl_bps_from_first as i64),
        );
        if sl_hit {
            let qty = Size(ctx.position.size.0.abs());
            let side = if held.side_long {
                Side::Ask
            } else {
                Side::Bid
            };
            self.phase = Phase::Idle;
            self.straddle_placed = false;
            return Some(
                vec![
                    Action::CancelAll,
                    build_close(ctx.symbol, side, qty, best_bid, best_ask),
                ],
            );
        }
        let (held, add) = self.try_adds(ctx, held, drift, mid, best_bid, best_ask)?;
        if let Some(action) = add {
            self.phase = Phase::Holding(held);
            return Some(vec![action]);
        }
        let (held, actions) = self.refresh_tp(ctx, held, best_bid, best_ask)?;
        self.phase = Phase::Holding(held);
        Some(actions)
    }

    fn on_first_fill(&mut self, ctx: &StrategyContext<'_>, best_bid: Price, best_ask: Price)
        -> (result: Option<Vec<Action>>)
        ensures
            follows(first_fill(*old(self), *ctx, best_bid, best_ask), result, *final(self)),
    {
        let side_long = ctx.position.size.0.is_positive();
        let first_entry = ctx.position.avg_entry.0;
        let tp = self.build_tp_intent(
            ctx.symbol,
            side_long,
            ctx.position.size.0,
            first_entry,
            best_bid,
            best_ask,
        )?;
        let mut actions = vec![Action::CancelAll];
        let last_tp_price = match tp {
            Some((action, price)) => {
                actions.push(action);
                Some(price)
            },
            None => None,
        };
        self.phase = Phase::Holding(
            Holding {
                side_long,
                first_entry_price: first_entry,
                pyramid_bands_placed: 0,
                dca_bands_placed: 0,
                last_add_ts_ns: ctx.now.0,
                last_tp_price,
            },
        );
        self.straddle_placed = false;
        Some(actions)
    }

    fn on_touches(&mut self, ctx: &StrategyContext<'_>, best_bid: Price, best_ask: Price)
        -> (result: Option<Vec<Action>>)
        ensures
            follows(touch_step(*old(self), *ctx, best_bid, best_ask), result, *final(self)),
    {
        if best_ask.0.is_at_most(best_bid.0) {
            return Some(Vec::new());
        }
        let mid = try_midpoint(best_bid.0, best_ask.0)?;
        let flat = ctx.position.size.0.is_zero();
        match self.phase {
            Phase::Idle => {
                if !flat {
                    return self.on_first_fill(ctx, best_bid, best_ask);
                }
                if self.straddle_placed {
                    return Some(Vec::new());
                }
                self.straddle_placed = true;
                let mut actions = vec![Action::CancelAll];
                let mut legs = self.build_straddle(ctx.symbol, best_bid, best_ask)?;
                actions.append(&mut legs);
                Some(actions)
            },
            Phase::Holding(held) => {
                if flat {
                    self.phase = Phase::Idle;
                    self.straddle_placed = false;
                    return Some(vec![Action::CancelAll]);
                }
                self.on_holding(ctx, held, mid, best_bid, best_ask)
            },
        }
    }
}

fn drift_bps(mid: Decimal, reference: Decimal, side_long: bool) -> (result: Option<Decimal>)
    ensures
        result == drift_in_favour(mid, reference, side_long),
        result is Some && reference@ > 0 && exact_difference(mid, reference) && measures_exactly(
            difference(mid, reference)->0,
            reference,
        ) ==> {
            &&& side_long ==> reads_bps(mid@ - reference@, reference@, result->0@)
            &&& !side_long ==> reads_bps(reference@ - mid@, reference@, result->0@)
        },
{
    if !reference.is_positive() {
        return Some(Decimal::zero());
    }
    let moved = mid.checked_sub(reference)?;
    let raw = try_bps_of(moved, reference)?;
    proof {
        if measures_exactly(moved, reference) {
            lemma_reads_bps_turned(moved@, reference@, raw@);
        }
    }
    if side_long {
        Some(raw)
    } else {
        Some(raw.negate())
    }
}

impl Strategy for Hydra {
    type Config = HydraConfig;

    open spec fn initial(config: HydraConfig) -> Option<Hydra> {
        Some(
            Hydra {
                config,
                phase: Phase::Idle,
                last_bid: None,
                last_ask: None,
                straddle_placed: false,
            },
        )
    }

    open spec fn event_step(state: Hydra, ctx: StrategyContext, event: MarketEvent) -> Option<
        (Hydra, Seq<Action>),
    > {
        match event {
            MarketEvent::BookUpdate { snapshot } => if snapshot.bids@.len() == 0
                || snapshot.asks@.len() == 0 {
                Some((state, Seq::empty()))
            } else {
                let bid = snapshot.bids@[0].price;
                let ask = snapshot.asks@[0].price;
                touch_step(Hydra { last_bid: Some(bid), last_ask: Some(ask), ..state }, ctx, bid, ask)
            },
            MarketEvent::Trade { .. } => Some((state, Seq::empty())),
            _ => match (state.last_bid, state.last_ask) {
                (Some(bid), Some(ask)) => touch_step(state, ctx, bid, ask),
                _ => Some((state, Seq::empty())),
            },
        }
    }

    open spec fn rejection_step(
        state: Hydra,
        ctx: StrategyContext,
        intent: QuoteIntent,
        reason: Seq<char>,
    ) -> Option<(Hydra, Seq<Action>)> {
        Some((state, Seq::empty()))
    }

    fn try_new(config: HydraConfig) -> (result: Option<Hydra>) {
        Some(
            Hydra {
                config,
                phase: Phase::Idle,
                last_bid: None,
                last_ask: None,
                straddle_placed: false,
            },
        )
    }

    fn name(&self) -> (result: &str)
        ensures
            result@ == "hydra"@,
    {
        "hydra"
    }

    fn try_on_event(&mut self, ctx: &StrategyContext<'_>, event: &MarketEvent) -> (result: Option<
        Vec<Action>,
    >) {
        match event {
            MarketEvent::BookUpdate { snapshot } => {
                if snapshot.bids.len() == 0 || snapshot.asks.len() == 0 {
                    return Some(Vec::new());
                }
                let bid = snapshot.bids[0].price;
                let ask = snapshot.asks[0].price;
                self.last_bid = Some(bid);
                self.last_ask = Some(ask);
                self.on_touches(ctx, bid, ask)
            },
            MarketEvent::Trade { .. } => Some(Vec::new()),
            _ => match (self.last_bid, self.last_ask) {
                (Some(bid), Some(ask)) => self.on_touches(ctx, bid, ask),
                _ => Some(Vec::new()),
            },
        }
    }

    fn try_on_quote_rejected(
        &mut self,
        ctx: &StrategyContext<'_>,
        intent: &QuoteIntent,
        reason: &str,
    ) -> (result: Option<Vec<Action>>) {
        Some(Vec::new())
    }
}

/// While the position stays open, its direction and first entry price never change:
/// no event moves the anchor of the stop-loss.
pub proof fn law_stop_anchor_is_fixed(state: Hydra, ctx: StrategyContext, event: MarketEvent)
    requires
        Hydra::event_step(state, ctx, event) is Some,
    ensures
        ({
            let next = (Hydra::event_step(state, ctx, event)->0).0;
            match (state.phase, next.phase) {
                (Phase::Holding(before), Phase::Holding(after)) => after.side_long
                    == before.side_long && after.first_entry_price == before.first_entry_price,
                _ => true,
            }
        }),
{
}

/// The band counters only grow and stay within the configured numbers of adds, so
/// no band fires twice and no arm fires more often than it may.
pub proof fn law_adds_are_bounded(state: Hydra, ctx: StrategyContext, event: MarketEvent)
    requires
        Hydra::event_step(state, ctx, event) is Some,
        state.phase matches Phase::Holding(held) ==> held.pyramid_bands_placed
            <= state.config.pyramid_max_adds && held.dca_bands_placed <= state.config.dca_max_adds,
    ensures
        ({
            let next = (Hydra::event_step(state, ctx, event)->0).0;
            &&& next.config == state.config
            &&& next.phase matches Phase::Holding(held) ==> held.pyramid_bands_placed
                <= next.config.pyramid_max_adds && held.dca_bands_placed
                <= next.config.dca_max_adds
            &&& match (state.phase, next.phase) {
                (Phase::Holding(before), Phase::Holding(after)) => after.pyramid_bands_placed
                    >= before.pyramid_bands_placed && after.dca_bands_placed
                    >= before.dca_bands_placed,
                _ => true,
            }
        }),
{
}

/// An event while holding that does not close the position places at most one
/// order that adds to it, and such an order keeps the position under the cap.
pub proof fn law_one_capped_add_per_event(
    config: HydraConfig,
    ctx: StrategyContext,
    held: Holding,
    drift: Decimal,
    mid: Decimal,
    best_bid: Price,
    best_ask: Price,
)
    requires
        adds(config, ctx, held, drift, mid, best_bid, best_ask) is Some,
        config.max_position_usdt@ > 0,
    ensures
        (adds(config, ctx, held, drift, mid, best_bid, best_ask)->0).1 matches Some(
            Action::Quote(order),
        ) ==> {
            let projected = times(
                plus(Some(absolute(ctx.position.size.0)), Some(order.size.0)),
                Some(mid),
            );
            &&& order.size.0@ > 0
            &&& projected is Some
            &&& (projected->0)@ <= config.max_position_usdt@
        },
{
}

/// Whatever the adds did to the average, a drift of the configured size against the
/// first fill flattens the whole position at the opposing touch and goes idle.
pub proof fn law_stop_flattens(
    state: Hydra,
    ctx: StrategyContext,
    held: Holding,
    mid: Decimal,
    best_bid: Price,
    best_ask: Price,
)
    requires
        drift_in_favour(mid, held.first_entry_price, held.side_long) is Some,
        stopped_out(
            state.config,
            drift_in_favour(mid, held.first_entry_price, held.side_long)->0,
        ),
    ensures
        holding_step(state, ctx, held, mid, best_bid, best_ask) matches Some((next, actions)) && {
            &&& next.phase is Idle
            &&& !next.straddle_placed
            &&& actions.len() == 2
            &&& actions[0] == Action::CancelAll
            &&& actions[1] matches Action::Quote(order) && order.tif == TimeInForce::IOC
                && order.side == exit_side(held.side_long) && order.size.0 == absolute(
                ctx.position.size.0,
            )
        },
{
}

proof fn lemma_straddle_keeps_to(
    config: HydraConfig,
    symbol: Symbol,
    best_bid: Price,
    best_ask: Price,
)
    ensures
        straddle(config, symbol, best_bid, best_ask) matches Some(legs) ==> keeps_to(legs, symbol),
{
    if let Some(mid) = midpoint(best_bid.0, best_ask.0) {
        let offset = bps_fraction(config.entry_offset_bps as int);
        match (
            stepped(price_away(mid, Side::Bid, offset), config.tick_size),
            stepped(price_away(mid, Side::Ask, offset), config.tick_size),
        ) {
            (Some(bid), Some(ask)) => {
                let below = bid@ > 0 && bid@ < best_ask.0@;
                let above = ask@ > best_bid.0@;
                match (
                    leg(config, symbol, Side::Bid, Price(bid), below),
                    leg(config, symbol, Side::Ask, Price(ask), above),
                ) {
                    (Some(bids), Some(asks)) => {
                        lemma_keeps_to_joined(bids, asks, symbol);
                    },
                    _ => {},
                }
            },
            _ => {},
        }
    }
}

proof fn lemma_holding_keeps_to(
    state: Hydra,
    ctx: StrategyContext,
    held: Holding,
    mid: Decimal,
    best_bid: Price,
    best_ask: Price,
)
    ensures
        holding_step(state, ctx, held, mid, best_bid, best_ask) matches Some((_, actions))
            ==> keeps_to(actions, *ctx.symbol),
{
}

proof fn lemma_touch_keeps_to(state: Hydra, ctx: StrategyContext, best_bid: Price, best_ask: Price)
    ensures
        touch_step(state, ctx, best_bid, best_ask) matches Some((_, actions)) ==> keeps_to(
            actions,
            *ctx.symbol,
        ),
{
    if let Some(mid) = midpoint(best_bid.0, best_ask.0) {
        match state.phase {
            Phase::Idle => {
                lemma_straddle_keeps_to(state.config, *ctx.symbol, best_bid, best_ask);
                if let Some(legs) = straddle(state.config, *ctx.symbol, best_bid, best_ask) {
                    lemma_keeps_to_joined(seq![Action::CancelAll], legs, *ctx.symbol);
                }
            },
            Phase::Holding(held) => {
                lemma_holding_keeps_to(state, ctx, held, mid, best_bid, best_ask);
            },
        }
    }
}

/// No event and no rejection calls for an order in another instrument.
pub proof fn law_quotes_its_instrument(
    state: Hydra,
    ctx: StrategyContext,
    event: MarketEvent,
    intent: QuoteIntent,
    reason: Seq<char>,
)
    ensures
        Hydra::event_step(state, ctx, event) matches Some((_, actions)) ==> keeps_to(
            actions,
            *ctx.symbol,
        ),
        Hydra::rejection_step(state, ctx, intent, reason) matches Some((_, actions)) ==> keeps_to(
            actions,
            *ctx.symbol,
        ),
{
    match event {
        MarketEvent::BookUpdate { snapshot } => {
            if snapshot.bids@.len() > 0 && snapshot.asks@.len() > 0 {
                let bid = snapshot.bids@[0].price;
                let ask = snapshot.asks@[0].price;
                let seen = Hydra { last_bid: Some(bid), last_ask: Some(ask), ..state };
                lemma_touch_keeps_to(seen, ctx, bid, ask);
            }
        },
        _ => {
            if state.last_bid is Some && state.last_ask is Some {
                lemma_touch_keeps_to(state, ctx, state.last_bid->0, state.last_ask->0);
            }
        },
    }
}

/// The straddle bids `entry_offset_bps` below the mid and offers as far above it, each on the
/// tick grid, and places no leg that would take.
pub proof fn law_straddle_brackets_the_mid(
    config: HydraConfig,
    symbol: Symbol,
    best_bid: Price,
    best_ask: Price,
    mid: Decimal,
    order: QuoteIntent,
)
    requires
        midpoint(best_bid.0, best_ask.0) == Some(mid),
        straddle(config, symbol, best_bid, best_ask) matches Some(actions) && actions.contains(
            Action::Quote(order),
        ),
    ensures
        ({
            let away = quotient(whole(config.entry_offset_bps as int), whole(10_000));
            &&& order.tif is PostOnly && order.size.0@ > 0
            &&& order.side is Bid ==> 0 < order.price.0@ < best_ask.0@ && Some(order.price.0)
                == stepped(times(Some(mid), minus(Some(whole(1)), away)), config.tick_size)
            &&& order.side is Ask ==> order.price.0@ > best_bid.0@ && Some(order.price.0)
                == stepped(times(Some(mid), plus(Some(whole(1)), away)), config.tick_size)
        }),
{
    let actions = straddle(config, symbol, best_bid, best_ask)->0;
    let i = choose|i: int| 0 <= i < actions.len() && actions[i] == Action::Quote(order);
    assert(actions[i] == Action::Quote(order));
}

/// The take-profit offers the whole position on the side against it: it rests at its target,
/// or takes the touch where the market is past the target already.
pub proof fn law_take_profit_closes_the_position(
    config: HydraConfig,
    symbol: Symbol,
    side_long: bool,
    position_qty: Decimal,
    avg_entry: Decimal,
    best_bid: Price,
    best_ask: Price,
    target: Decimal,
)
    requires
        tp_price(config, side_long, avg_entry) == Some(target),
    ensures
        take_profit(
            config,
            symbol,
            side_long,
            position_qty,
            avg_entry,
            best_bid,
            best_ask,
        ) matches Some(Some((action, price))) ==> {
            let order = action->Quote_0;
            let past = if side_long {
                target@ <= best_bid.0@
            } else {
                target@ >= best_ask.0@
            };
            &&& action is Quote && order.price == price
            &&& order.side is Ask <==> side_long
            &&& Some(order.size.0) == stepped(Some(absolute(position_qty)), config.step_size)
            &&& !past ==> order.tif is PostOnly && price.0 == target
            &&& past ==> order.tif is IOC && price == if side_long {
                best_bid
            } else {
                best_ask
            }
        },
{
}

/// An add buys from the best ask for a long and sells into the best bid for a short.
pub proof fn law_adds_take_in_the_direction(
    config: HydraConfig,
    ctx: StrategyContext,
    side_long: bool,
    mid: Decimal,
    best_bid: Price,
    best_ask: Price,
)
    ensures
        add_order(config, ctx, side_long, mid, best_bid, best_ask) matches Some(Some(action)) ==> {
            let order = action->Quote_0;
            &&& action is Quote && order.tif is IOC
            &&& side_long ==> order.side is Bid && order.price == best_ask
            &&& !side_long ==> order.side is Ask && order.price == best_bid
            &&& hydra_size(config, order.price) == Some(order.size.0)
        },
{
}

/// An add fires only once its cooldown has passed and where the drift has reached a band that
/// was not placed: a favourable one for the pyramid, an adverse one otherwise.
pub proof fn law_adds_need_a_new_band(
    config: HydraConfig,
    ctx: StrategyContext,
    held: Holding,
    drift: Decimal,
    mid: Decimal,
    best_bid: Price,
    best_ask: Price,
    favourable: u32,
    adverse: u32,
)
    requires
        bands(drift, config.pyramid_step_bps, config.pyramid_max_adds) == Some(favourable),
        bands(negated(drift), config.dca_step_bps, config.dca_max_adds) == Some(adverse),
    ensures
        adds(config, ctx, held, drift, mid, best_bid, best_ask) matches Some((next, Some(_))) ==> {
            &&& favourable > held.pyramid_bands_placed || adverse > held.dca_bands_placed
            &&& next.last_add_ts_ns == ctx.now.0
            &&& favourable > held.pyramid_bands_placed ==> next.pyramid_bands_placed == favourable
                && next.dca_bands_placed == held.dca_bands_placed
            &&& favourable <= held.pyramid_bands_placed ==> next.dca_bands_placed == adverse
                && next.pyramid_bands_placed == held.pyramid_bands_placed
        },
        0 <= ctx.now.0 - held.last_add_ts_ns < config.add_cooldown_ms * 1_000_000 <= u64::MAX
            ==> adds(config, ctx, held, drift, mid, best_bid, best_ask) == Some(
            (held, None::<Action>),
        ),
{
}

/// The take-profit is moved where its target has left the resting one by more than a tick.
pub proof fn law_take_profit_follows_the_average(
    config: HydraConfig,
    held: Holding,
    avg_entry: Decimal,
    target: Decimal,
    gap: Decimal,
)
    requires
        tp_price(config, held.side_long, avg_entry) == Some(target),
        held.last_tp_price is Some,
        difference(target, (held.last_tp_price->0).0) == Some(gap),
    ensures
        tp_stale(config, held, avg_entry) == Some(absolute(gap)@ > config.tick_size@),
        tp_stale(config, Holding { last_tp_price: None, ..held }, avg_entry) == Some(true),
{
}

/// The first fill fixes the direction and the anchor of the stop.
pub proof fn law_first_fill_sets_the_anchor(
    state: Hydra,
    ctx: StrategyContext,
    best_bid: Price,
    best_ask: Price,
)
    ensures
        first_fill(state, ctx, best_bid, best_ask) matches Some((next, actions)) ==> {
            let held = next.phase->Holding_0;
            &&& next.phase is Holding && actions.len() > 0 && actions[0] is CancelAll
            &&& held.side_long == (ctx.position.size.0@ > 0)
            &&& held.first_entry_price == ctx.position.avg_entry.0
            &&& held.pyramid_bands_placed == 0 && held.dca_bands_placed == 0
        },
{
}

/// A size worth less than the minimum is replaced by the minimum at that price, rounded up to
/// the lot grid; a size worth more is kept.
pub proof fn law_sizes_clear_the_minimum(
    config: HydraConfig,
    price: Price,
    size: Decimal,
    value: Decimal,
)
    requires
        price.0@ > 0,
        config.min_notional@ > 0,
        leg_size(config.notional_per_order, price.0, config.step_size) == Some(size),
        product(size, price.0) == Some(value),
    ensures
        value@ >= config.min_notional@ ==> hydra_size(config, price) == Some(size),
        value@ < config.min_notional@ ==> hydra_size(config, price) == stepped_up(
            quotient(config.min_notional, price.0),
            config.step_size,
        ),
{
}

/// The drift is positive in favour of the position, in basis points of the reference: the mid
/// over it for a long, it over the mid for a short.
pub proof fn law_drift_is_in_favour(
    mid: Decimal,
    reference: Decimal,
    moved: Decimal,
    moved_bps: Decimal,
    bps: int,
)
    requires
        difference(mid, reference) == Some(moved),
        moved@ == mid@ - reference@,
        reads_exactly(moved, reference, moved_bps),
        negated(moved_bps)@ == -moved_bps@,
    ensures
        drift_in_favour(mid, reference, true) matches Some(drift) && (drift@ >= bps * pow10(28)
            <==> (mid@ - reference@) * 10_000 >= bps * reference@),
        drift_in_favour(mid, reference, false) matches Some(drift) && (drift@ >= bps * pow10(28)
            <==> (reference@ - mid@) * 10_000 >= bps * reference@),
{
    lemma_reads_exactly(moved, reference, moved_bps, bps);
    lemma_reads_exactly(moved, reference, moved_bps, -bps);
    assert((-bps) * pow10(28) == -(bps * pow10(28))) by (nonlinear_arith);
    assert((-bps) * reference@ == -(bps * reference@)) by (nonlinear_arith);
}

/// The stop needs a threshold and a drift against the position of at least that.
pub proof fn law_stop_needs_an_adverse_drift(config: HydraConfig, drift: Decimal)
    requires
        negated(drift)@ == -drift@,
    ensures
        stopped_out(config, drift) <==> config.sl_bps_from_first > 0 && drift@ <= -(
        config.sl_bps_from_first * pow10(28)),
        drift@ >= 0 ==> !stopped_out(config, drift),
{
    lemma_whole(config.sl_bps_from_first as int);
    lemma_pow10_positive(28);
    let (n, p) = (config.sl_bps_from_first as int, pow10(28));
    assert(n > 0 ==> n * p > 0) by (nonlinear_arith)
        requires
            p >= 1,
    ;
}

/// The target of a long lies `tp_bps_from_avg` above the average entry, that of a short as far
/// below it, on the tick grid.
pub proof fn law_target_is_beyond_the_average(config: HydraConfig, avg_entry: Decimal)
    ensures
        ({
            let away = quotient(whole(config.tp_bps_from_avg as int), whole(10_000));
            &&& tp_price(config, true, avg_entry) == stepped(
                times(Some(avg_entry), plus(Some(whole(1)), away)),
                config.tick_size,
            )
            &&& tp_price(config, false, avg_entry) == stepped(
                times(Some(avg_entry), minus(Some(whole(1)), away)),
                config.tick_size,
            )
        }),
{
}

/// The phase follows the position: going flat cancels everything and lays a new straddle later,
/// a first fill starts holding, and a straddle is laid once.
pub proof fn law_phase_follows_the_position(
    state: Hydra,
    ctx: StrategyContext,
    best_bid: Price,
    best_ask: Price,
)
    requires
        best_bid.0@ < best_ask.0@,
    ensures
        touch_step(state, ctx, best_bid, best_ask) matches Some((next, actions)) ==> {
            let flat = ctx.position.size.0@ == 0;
            &&& state.phase is Holding && flat ==> next.phase is Idle && !next.straddle_placed
                && actions =~= seq![Action::CancelAll]
            &&& state.phase is Idle && !flat ==> next.phase is Holding
            &&& state.phase is Idle && flat && state.straddle_placed ==> next == state
                && actions.len() == 0
            &&& state.phase is Idle && flat ==> next.phase is Idle && next.straddle_placed
        },
{
}

} // verus!
