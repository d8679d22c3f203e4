//! An averaging grid that keeps the average buy below the average sell by sizing.
//!
//! Orders rest on a lattice of prices around an origin that is frozen at the first
//! usable mid. Deeper levels carry more size, so the average entry of a position
//! follows the price. Two modes share the engine:
//!
//! - [`KeelMode::Trailing`]: while a position is held, the side that reduces it is a
//!   single order pegged beyond the average entry, never on the wrong side of it.
//! - [`KeelMode::Lattice`]: both sides are the lattice.
//!
//! Resting levels are never repriced as the mid slides. A level is requoted only
//! when its size is off, and the levels farthest from the mid are trimmed once too
//! many orders rest. A flip layer turns the position round with one taker order when
//! the price runs against it.

use crate::decimal::{
    absolute, adds_exactly, decimal, difference, exact_difference, exact_product, exact_sum,
    greater, lesser, magnitude, minus, multiplies_exactly, over, plus, pow10, product, quotient,
    rounded, subtracts_exactly, sum, times, whole, whole_part, Decimal,
};
use crate::grid::{grid, gridded, gridded_off_market, Grid};
use crate::market::{MarketEvent, Price, QuoteId, QuoteIntent, Side, Symbol, TimeInForce};
use crate::quoting::{
    compute_mid_strict, drop_older, elapsed, fraction, is_size_off, lemma_trips, mid_strict, pruned,
    size_is_off, trips, try_fraction,
};
use crate::sorting::{sort_ranked, sorted, Ranked};
use crate::strategy::{
    all_for, follows, keeps_to, lemma_keeps_to_joined, Action, Strategy, StrategyContext,
};
use std::collections::VecDeque;
use vstd::prelude::*;

verus! {

/// How a position is reduced.
#[derive(Clone, Copy, Debug, PartialEq, Eq, Structural)]
pub enum KeelMode {
    /// A single order pegged beyond the average entry.
    Trailing,
    /// The lattice on both sides.
    Lattice,
}

/// Configuration for [`Keel`].
#[derive(Clone, Copy, Debug)]
pub struct KeelConfig {
    /// Order notional at the innermost level, in quote currency.
    pub notional_per_order: Decimal,
    /// Venue tick size. `0` means no rounding.
    pub tick_size: Decimal,
    /// Venue lot step size. `0` means no rounding.
    pub step_size: Decimal,
    /// Venue minimum order notional. `0` means none.
    pub min_notional: Decimal,
    /// No orders rest within this distance of the mid, in bps.
    pub inner_bps: Decimal,
    /// Lattice spacing, in bps of the origin.
    pub step_bps: Decimal,
    /// Levels per side around the mid.
    pub levels: u32,
    /// Size added per step of depth, as a fraction of the innermost size.
    pub size_ramp: Decimal,
    /// Distance of the pegged reducing order from the average entry, in bps.
    pub reduce_bps: Decimal,
    /// Position value at which nothing more is added. `0` means no cap.
    pub max_position_notional: Decimal,
    /// Resting orders at which the outskirts are trimmed.
    pub max_open: u32,
    /// How a position is reduced.
    pub mode: KeelMode,
    /// Move against the average entry that flips the position, in bps. `0` disables.
    pub sar_trigger_bps: Decimal,
    /// Window of the trend gate, in seconds. `0` disables.
    pub trend_window_secs: u64,
    /// Net move over path length at which the window counts as a trend.
    pub trend_min_ratio: Decimal,
    /// Least time between flips, in seconds.
    pub flip_cooldown_secs: u64,
}

/// The default settings for a tight grid.
pub open spec fn keel_defaults(notional_per_order: Decimal) -> KeelConfig {
    KeelConfig {
        notional_per_order,
        tick_size: whole(0),
        step_size: whole(0),
        min_notional: whole(0),
        inner_bps: whole(2),
        step_bps: whole(2),
        levels: 10,
        size_ramp: whole(0),
        reduce_bps: whole(2),
        max_position_notional: whole(0),
        max_open: 60,
        mode: KeelMode::Trailing,
        sar_trigger_bps: whole(0),
        trend_window_secs: 0,
        trend_min_ratio: decimal(6, 1),
        flip_cooldown_secs: 5,
    }
}

impl KeelConfig {
    /// The default settings for a tight grid.
    pub fn defaults(notional_per_order: Decimal) -> (result: KeelConfig)
        ensures
            result == keel_defaults(notional_per_order),
    {
        KeelConfig {
            notional_per_order,
            tick_size: Decimal::zero(),
            step_size: Decimal::zero(),
            min_notional: Decimal::zero(),
            inner_bps: Decimal::whole(2),
            step_bps: Decimal::whole(2),
            levels: 10,
            size_ramp: Decimal::zero(),
            reduce_bps: Decimal::whole(2),
            max_position_notional: Decimal::zero(),
            max_open: 60,
            mode: KeelMode::Trailing,
            sar_trigger_bps: Decimal::zero(),
            trend_window_secs: 0,
            trend_min_ratio: Decimal::new(6, 1),
            flip_cooldown_secs: 5,
        }
    }
}

/// Averaging-grid strategy.
pub struct Keel {
    /// Settings.
    pub config: KeelConfig,
    /// Venue grid.
    pub grid: Grid,
    /// Anchor of the lattice, once there is one.
    pub origin: Option<Decimal>,
    /// Mid at the last reconcile.
    pub last_reconcile_mid: Option<Decimal>,
    /// Time of the last flip, in ns.
    pub last_flip_ts: Option<u64>,
    /// Mids within the trend window, with their times.
    pub mid_history: VecDeque<(u64, Decimal)>,
}

/// Mathematical content of a [`Keel`].
#[verifier::ext_equal]
pub struct KeelState {
    /// Settings.
    pub config: KeelConfig,
    /// Venue grid.
    pub grid: Grid,
    /// Anchor of the lattice, once there is one.
    pub origin: Option<Decimal>,
    /// Mid at the last reconcile.
    pub last_reconcile_mid: Option<Decimal>,
    /// Time of the last flip, in ns.
    pub last_flip_ts: Option<u64>,
    /// Mids within the trend window, with their times.
    pub mid_history: Seq<(u64, Decimal)>,
}

impl View for Keel {
    type V = KeelState;

    open spec fn view(&self) -> KeelState {
        KeelState {
            config: self.config,
            grid: self.grid,
            origin: self.origin,
            last_reconcile_mid: self.last_reconcile_mid,
            last_flip_ts: self.last_flip_ts,
            mid_history: self.mid_history@,
        }
    }
}

/// A whole number of seconds in ns, where a `u64` can hold it.
pub open spec fn seconds(secs: u64) -> Option<u64> {
    if secs * 1_000_000_000 <= u64::MAX {
        Some((secs * 1_000_000_000) as u64)
    } else {
        None
    }
}

fn try_seconds(secs: u64) -> (result: Option<u64>)
    ensures
        result == seconds(secs),
{
    secs.checked_mul(1_000_000_000)
}

/// The history once a mid has been seen.
pub open spec fn recorded(state: KeelState, now: u64, mid: Decimal) -> Option<KeelState> {
    if state.config.trend_window_secs == 0 {
        Some(state)
    } else {
        match seconds(state.config.trend_window_secs) {
            None => None,
            Some(window_ns) => Some(
                KeelState {
                    mid_history: pruned(
                        state.mid_history.push((now, mid)),
                        elapsed(now, window_ns),
                    ),
                    ..state
                },
            ),
        }
    }
}

/// The total distance travelled from each mid to the next.
pub open spec fn path_length(history: Seq<(u64, Decimal)>) -> Option<Decimal>
    decreases history.len(),
{
    if history.len() <= 1 {
        Some(whole(0))
    } else {
        match difference(history.last().1, history[history.len() - 2].1) {
            None => None,
            Some(leg) => plus(path_length(history.drop_last()), Some(absolute(leg))),
        }
    }
}

/// Whether the price has run far enough past the average entry, against the position.
pub open spec fn stopped_out(
    config: KeelConfig,
    pos: Decimal,
    avg: Decimal,
    mid: Decimal,
) -> Option<bool> {
    if config.sar_trigger_bps@ <= 0 {
        Some(false)
    } else {
        let lost = if pos@ > 0 {
            difference(avg, mid)
        } else {
            difference(mid, avg)
        };
        match (over(lost, Some(avg)), fraction(config.sar_trigger_bps)) {
            (Some(adverse), Some(trigger)) => Some(adverse@ >= trigger@),
            _ => None,
        }
    }
}

/// Whether the mids of the window run one way, against the position.
pub open spec fn trend_against(state: KeelState, pos: Decimal) -> Option<bool> {
    let h = state.mid_history;
    if state.config.trend_window_secs == 0 || h.len() < 3 {
        Some(false)
    } else {
        match (difference(h.last().1, h[0].1), path_length(h)) {
            (Some(net), Some(path)) => if path@ <= 0 {
                Some(false)
            } else {
                match quotient(absolute(net), path) {
                    None => None,
                    Some(ratio) => Some(
                        ratio@ >= state.config.trend_min_ratio@ && if pos@ > 0 {
                            net@ < 0
                        } else {
                            net@ > 0
                        },
                    ),
                }
            },
            _ => None,
        }
    }
}

/// Whether a trigger of the flip layer fires against the position.
pub open spec fn flips(state: KeelState, pos: Decimal, avg: Decimal, mid: Decimal) -> Option<bool> {
    if pos@ == 0 || avg@ <= 0 {
        Some(false)
    } else {
        match stopped_out(state.config, pos, avg, mid) {
            None => None,
            Some(true) => Some(true),
            Some(false) => trend_against(state, pos),
        }
    }
}

/// Whether the last flip is more recent than the cooldown.
pub open spec fn cooling(state: KeelState, now: u64) -> Option<bool> {
    match state.last_flip_ts {
        None => Some(false),
        Some(last) => match seconds(state.config.flip_cooldown_secs) {
            None => None,
            Some(cooldown_ns) => Some(elapsed(now, last) < cooldown_ns),
        },
    }
}

/// Whether the position is to be flipped now.
pub open spec fn flip_due(state: KeelState, ctx: StrategyContext, mid: Decimal) -> Option<bool> {
    let armed = state.config.sar_trigger_bps@ > 0 || state.config.trend_window_secs > 0;
    if !armed || ctx.position.size.0@ == 0 {
        Some(false)
    } else {
        match cooling(state, ctx.now.0) {
            None => None,
            Some(true) => Some(false),
            Some(false) => flips(state, ctx.position.size.0, ctx.position.avg_entry.0, mid),
        }
    }
}

/// The taker order of twice the position that crosses the touch.
pub open spec fn flip_order(state: KeelState, ctx: StrategyContext) -> Option<Seq<Action>> {
    let pos = ctx.position.size.0;
    let (side, book) = if pos@ > 0 {
        (Side::Ask, ctx.latest_book.bids@)
    } else {
        (Side::Bid, ctx.latest_book.asks@)
    };
    if book.len() == 0 {
        Some(seq![Action::NoOp])
    } else {
        match product(absolute(pos), whole(2)) {
            None => None,
            Some(size) => match gridded(state.grid, *ctx.symbol, side, book[0].price.0, size) {
                None => None,
                Some(intent) => Some(
                    seq![Action::Quote(QuoteIntent { tif: TimeInForce::IOC, ..intent })],
                ),
            },
        }
    }
}

/// What the rungs of the lattice are laid out from.
#[derive(Clone, Copy, Debug)]
pub struct Frame {
    /// Current mid.
    pub mid: Decimal,
    /// Anchor of the lattice.
    pub origin: Decimal,
    /// Distance between rungs.
    pub step: Decimal,
    /// Half of the dead zone around the mid.
    pub inner: Decimal,
    /// Whether the position is at its cap.
    pub capped: bool,
}

/// The side of a rung; the inner `None` is the dead zone.
pub open spec fn rung_side(frame: Frame, price: Decimal) -> Option<Option<Side>> {
    match difference(frame.mid, frame.inner) {
        None => None,
        Some(low) => if price@ < low@ {
            Some(Some(Side::Bid))
        } else {
            match sum(frame.mid, frame.inner) {
                None => None,
                Some(high) => Some(
                    if price@ > high@ {
                        Some(Side::Ask)
                    } else {
                        None
                    },
                ),
            }
        },
    }
}

/// Whether an order on `side` at `price` would cross the book.
pub open spec fn crosses(ctx: StrategyContext, side: Side, price: Decimal) -> bool {
    match side {
        Side::Bid => ctx.latest_book.asks@.len() > 0 && price@
            >= ctx.latest_book.asks@[0].price.0@,
        Side::Ask => ctx.latest_book.bids@.len() > 0 && price@
            <= ctx.latest_book.bids@[0].price.0@,
    }
}

/// The side that deepens a position.
pub open spec fn adding_side(pos: Decimal) -> Side {
    if pos@ >= 0 {
        Side::Bid
    } else {
        Side::Ask
    }
}

/// Whether the lattice has rungs on `side`: on the reducing side only in lattice
/// mode, and on the adding side only below the position cap. A flat book has both.
pub open spec fn rungs_wanted(
    config: KeelConfig,
    frame: Frame,
    ctx: StrategyContext,
    side: Side,
) -> bool {
    let pos = ctx.position.size.0;
    if pos@ == 0 {
        true
    } else if side == adding_side(pos) {
        !frame.capped
    } else {
        config.mode is Lattice
    }
}

/// The size of a rung before rounding: its notional grows with its depth.
pub open spec fn rung_size(config: KeelConfig, frame: Frame, price: Decimal) -> Option<Decimal> {
    match difference(price, frame.mid) {
        None => None,
        Some(away) => match quotient(absolute(away), frame.step) {
            None => None,
            Some(steps) => over(
                times(
                    Some(config.notional_per_order),
                    plus(Some(whole(1)), product(config.size_ramp, rounded(steps, 0))),
                ),
                Some(price),
            ),
        },
    }
}

/// The order on the rung `k` steps from the origin; the inner `None` is a rung that
/// is left empty.
pub open spec fn rung(
    state: KeelState,
    frame: Frame,
    ctx: StrategyContext,
    k: int,
) -> Option<Option<QuoteIntent>> {
    match plus(Some(frame.origin), product(whole(k), frame.step)) {
        None => None,
        Some(price) => if price@ <= 0 {
            Some(None)
        } else {
            match rung_side(frame, price) {
                None => None,
                Some(None) => Some(None),
                Some(Some(side)) => if crosses(ctx, side, price) || !rungs_wanted(
                    state.config,
                    frame,
                    ctx,
                    side,
                ) {
                    Some(None)
                } else {
                    match rung_size(state.config, frame, price) {
                        None => None,
                        Some(size) => match gridded(state.grid, *ctx.symbol, side, price, size) {
                            None => None,
                            Some(intent) => Some(Some(intent)),
                        },
                    }
                },
            }
        },
    }
}

/// Whether some order is written with this price.
pub open spec fn priced_at(orders: Seq<QuoteIntent>, price: Price) -> bool {
    exists|i: int| 0 <= i < orders.len() && (#[trigger] orders[i]).price == price
}

/// The orders with one more, unless one at its price is already there.
pub open spec fn with_order(orders: Seq<QuoteIntent>, order: QuoteIntent) -> Seq<QuoteIntent> {
    if priced_at(orders, order.price) {
        orders
    } else {
        orders.push(order)
    }
}

/// The orders on `count` rungs from the rung `from` on.
pub open spec fn rungs(
    state: KeelState,
    frame: Frame,
    ctx: StrategyContext,
    from: int,
    count: nat,
) -> Option<Seq<QuoteIntent>>
    decreases count,
{
    if count == 0 {
        Some(Seq::empty())
    } else {
        match rungs(state, frame, ctx, from, (count - 1) as nat) {
            None => None,
            Some(orders) => match rung(state, frame, ctx, from + count - 1) {
                None => None,
                Some(None) => Some(orders),
                Some(Some(order)) => Some(with_order(orders, order)),
            },
        }
    }
}

/// The side and price of the pegged reducing order; the inner `None` is no such
/// order.
pub open spec fn reduce_price(config: KeelConfig, ctx: StrategyContext) -> Option<
    Option<(Side, Decimal)>,
> {
    let pos = ctx.position.size.0;
    let avg = ctx.position.avg_entry.0;
    if config.mode is Lattice || pos@ == 0 || avg@ <= 0 {
        Some(None)
    } else if pos@ > 0 {
        let touch = if ctx.latest_book.asks@.len() > 0 {
            ctx.latest_book.asks@[0].price.0
        } else {
            whole(0)
        };
        match times(Some(avg), plus(Some(whole(1)), fraction(config.reduce_bps))) {
            None => None,
            Some(raw) => Some(
                if greater(raw, touch)@ > 0 {
                    Some((Side::Ask, greater(raw, touch)))
                } else {
                    None
                },
            ),
        }
    } else {
        match times(Some(avg), minus(Some(whole(1)), fraction(config.reduce_bps))) {
            None => None,
            Some(raw) => {
                let price = if ctx.latest_book.bids@.len() > 0 {
                    lesser(raw, ctx.latest_book.bids@[0].price.0)
                } else {
                    raw
                };
                Some(
                    if price@ > 0 {
                        Some((Side::Bid, price))
                    } else {
                        None
                    },
                )
            },
        }
    }
}

/// The lattice around the mid; the inner `None` is a lattice without spacing.
pub open spec fn framed(
    config: KeelConfig,
    ctx: StrategyContext,
    origin: Decimal,
    mid: Decimal,
) -> Option<Option<Frame>> {
    match times(Some(origin), fraction(config.step_bps)) {
        None => None,
        Some(step) => if step@ <= 0 {
            Some(None)
        } else {
            match (
                times(Some(mid), fraction(config.inner_bps)),
                product(absolute(ctx.position.size.0), mid),
            ) {
                (Some(inner), Some(value)) => Some(
                    Some(
                        Frame {
                            mid,
                            origin,
                            step,
                            inner,
                            capped: config.max_position_notional@ > 0 && value@
                                >= config.max_position_notional@,
                        },
                    ),
                ),
                _ => None,
            }
        },
    }
}

/// The rung nearest to the mid.
pub open spec fn middle_rung(frame: Frame) -> Option<int> {
    match over(difference(frame.mid, frame.origin), Some(frame.step)) {
        None => None,
        Some(steps) => {
            let k = whole_part(rounded(steps, 0));
            Some(
                if i64::MIN <= k <= i64::MAX {
                    k
                } else {
                    0
                },
            )
        },
    }
}

/// The orders on all rungs of the band around the mid.
pub open spec fn band(state: KeelState, frame: Frame, ctx: StrategyContext) -> Option<
    Seq<QuoteIntent>,
> {
    let levels = state.config.levels as int;
    match middle_rung(frame) {
        None => None,
        Some(middle) => if i64::MIN <= middle - levels && middle + levels <= i64::MAX {
            rungs(state, frame, ctx, middle - levels, (2 * levels + 1) as nat)
        } else {
            None
        },
    }
}

/// The orders that should rest.
pub open spec fn desired(state: KeelState, ctx: StrategyContext, mid: Decimal) -> Option<
    Seq<QuoteIntent>,
> {
    let origin = match state.origin {
        Some(origin) => origin,
        None => mid,
    };
    match framed(state.config, ctx, origin, mid) {
        None => None,
        Some(None) => Some(Seq::empty()),
        Some(Some(frame)) => match (band(state, frame, ctx), reduce_price(state.config, ctx)) {
            (Some(orders), Some(None)) => Some(orders),
            (Some(orders), Some(Some((side, price)))) => match gridded_off_market(
                state.grid,
                *ctx.symbol,
                side,
                price,
                absolute(ctx.position.size.0),
            ) {
                None => None,
                Some(order) => Some(with_order(orders, order)),
            },
            _ => None,
        },
    }
}

/// Whether the distance of the pegged order from the average entry is positive and no digit
/// of it is lost.
pub open spec fn clear_margin(config: KeelConfig, ctx: StrategyContext) -> bool {
    let avg = ctx.position.avg_entry.0;
    let off = fraction(config.reduce_bps)->0;
    &&& off@ > 0
    &&& if ctx.position.size.0@ > 0 {
        adds_exactly(whole(1), off) && multiplies_exactly(avg, sum(whole(1), off)->0)
    } else {
        subtracts_exactly(whole(1), off) && multiplies_exactly(avg, difference(whole(1), off)->0)
    }
}

/// Whether an order, where it reduces a position, is not on the losing side of the average
/// entry, and on the gaining side where the margin is clear.
pub open spec fn reduces_at_no_loss(config: KeelConfig, ctx: StrategyContext, order: QuoteIntent)
    -> bool {
    let pos = ctx.position.size.0;
    let avg = ctx.position.avg_entry.0;
    &&& pos@ > 0 && order.side is Ask ==> order.price.0@ >= avg@ && (clear_margin(config, ctx)
        ==> order.price.0@ > avg@)
    &&& pos@ < 0 && order.side is Bid ==> order.price.0@ <= avg@ && (clear_margin(config, ctx)
        ==> order.price.0@ < avg@)
}

/// Whether every resting order that some actions place reduces at no loss.
pub open spec fn all_reduce_at_no_loss(
    config: KeelConfig,
    ctx: StrategyContext,
    actions: Seq<Action>,
) -> bool {
    forall|i: int|
        0 <= i < actions.len() ==> match #[trigger] actions[i] {
            Action::Quote(order) => order.tif is PostOnly ==> reduces_at_no_loss(
                config,
                ctx,
                order,
            ),
            Action::Requote { intent, .. } => reduces_at_no_loss(config, ctx, intent),
            _ => true,
        }
}

/// The first resting quote written with this price on this side.
pub open spec fn resting_at(
    open: Seq<(QuoteId, QuoteIntent)>,
    price: Price,
    side: Side,
) -> Option<(QuoteId, QuoteIntent)>
    decreases open.len(),
{
    if open.len() == 0 {
        None
    } else {
        match resting_at(open.drop_last(), price, side) {
            Some(quote) => Some(quote),
            None => if open.last().1.price == price && open.last().1.side == side {
                Some(open.last())
            } else {
                None
            },
        }
    }
}

/// What placing the wanted orders amounts to.
#[verifier::ext_equal]
pub struct Placing {
    /// Quotes and requotes.
    pub actions: Seq<Action>,
    /// Resting quotes that stand for a wanted order.
    pub claimed: Seq<QuoteId>,
    /// How many quotes are new.
    pub fresh: nat,
}

/// Quotes what is missing and requotes what has the wrong size.
pub open spec fn placing(open: Seq<(QuoteId, QuoteIntent)>, wanted: Seq<QuoteIntent>) -> Option<
    Placing,
>
    decreases wanted.len(),
{
    if wanted.len() == 0 {
        Some(Placing { actions: Seq::empty(), claimed: Seq::empty(), fresh: 0 })
    } else {
        let order = wanted.last();
        match placing(open, wanted.drop_last()) {
            None => None,
            Some(done) => match resting_at(open, order.price, order.side) {
                None => Some(
                    Placing {
                        actions: done.actions.push(Action::Quote(order)),
                        fresh: done.fresh + 1,
                        ..done
                    },
                ),
                Some((id, resting)) => match size_is_off(resting.size.0, order.size.0) {
                    None => None,
                    Some(off) => Some(
                        Placing {
                            actions: if off {
                                done.actions.push(Action::Requote { id, intent: order })
                            } else {
                                done.actions
                            },
                            claimed: done.claimed.push(id),
                            ..done
                        },
                    ),
                },
            },
        }
    }
}

/// A resting quote that nothing wants, and its distance from the mid.
#[derive(Clone, Copy, Debug)]
pub struct Outskirt {
    /// The quote.
    pub id: QuoteId,
    /// Its distance from the mid.
    pub distance: Decimal,
}

impl Ranked for Outskirt {
    open spec fn before(self, other: Outskirt) -> bool {
        self.distance@ > other.distance@
    }

    proof fn asymmetric(a: Outskirt, b: Outskirt) {
    }

    proof fn not_before_carries(a: Outskirt, b: Outskirt, c: Outskirt) {
    }

    fn comes_before(&self, other: &Outskirt) -> (result: bool) {
        self.distance.is_more(other.distance)
    }
}

/// The side on which only the pegged order may rest.
pub open spec fn pegged_side(config: KeelConfig, pos: Decimal) -> Option<Side> {
    if config.mode is Lattice || pos@ == 0 {
        None
    } else if pos@ > 0 {
        Some(Side::Ask)
    } else {
        Some(Side::Bid)
    }
}

/// Of the unclaimed resting quotes, the cancels of those on the pegged side and the
/// others.
pub open spec fn unclaimed(
    open: Seq<(QuoteId, QuoteIntent)>,
    claimed: Seq<QuoteId>,
    pegged: Option<Side>,
    mid: Decimal,
) -> Option<(Seq<Action>, Seq<Outskirt>)>
    decreases open.len(),
{
    if open.len() == 0 {
        Some((Seq::empty(), Seq::empty()))
    } else {
        let (id, intent) = open.last();
        match unclaimed(open.drop_last(), claimed, pegged, mid) {
            None => None,
            Some((cancels, outskirts)) => if claimed.contains(id) {
                Some((cancels, outskirts))
            } else if pegged == Some(intent.side) {
                Some((cancels.push(Action::Cancel(id)), outskirts))
            } else {
                match difference(intent.price.0, mid) {
                    None => None,
                    Some(away) => Some(
                        (cancels, outskirts.push(Outskirt { id, distance: absolute(away) })),
                    ),
                }
            },
        }
    }
}

/// How many outskirts are trimmed.
pub open spec fn surplus(resting: int, cap: int, outskirts: int) -> int {
    if resting < cap {
        0
    } else if resting - cap < outskirts {
        resting - cap
    } else {
        outskirts
    }
}

/// Cancels of the first `n` quotes.
pub open spec fn cancels(quotes: Seq<Outskirt>, n: int) -> Seq<Action> {
    Seq::new(n as nat, |i: int| Action::Cancel(quotes[i].id))
}

/// The actions that bring the resting quotes to the wanted orders.
pub open spec fn reconciled(
    config: KeelConfig,
    ctx: StrategyContext,
    wanted: Seq<QuoteIntent>,
    mid: Decimal,
) -> Option<Seq<Action>> {
    let open = ctx.open_quotes@;
    match placing(open, wanted) {
        None => None,
        Some(placed) => match unclaimed(
            open,
            placed.claimed,
            pegged_side(config, ctx.position.size.0),
            mid,
        ) {
            None => None,
            Some((stale, outskirts)) => {
                let n = surplus(
                    (open.len() + placed.fresh) as int,
                    config.max_open as int,
                    outskirts.len() as int,
                );
                let actions = placed.actions + stale + cancels(sorted(outskirts), n);
                Some(
                    if actions.len() == 0 {
                        seq![Action::NoOp]
                    } else {
                        actions
                    },
                )
            },
        },
    }
}

/// Whether the resting lattice still stands: nothing filled, something rests, and the
/// mid has moved less than a step.
pub open spec fn settled(state: KeelState, ctx: StrategyContext, mid: Decimal) -> Option<bool> {
    if ctx.recent_fills@.len() > 0 || ctx.open_quotes@.len() == 0 {
        Some(false)
    } else {
        match state.last_reconcile_mid {
            None => Some(false),
            Some(last) => match difference(mid, last) {
                None => None,
                Some(moved) => match (
                    quotient(absolute(moved), mid),
                    fraction(state.config.step_bps),
                ) {
                    (Some(moved), Some(step)) => Some(moved@ < step@),
                    _ => None,
                },
            },
        }
    }
}

/// What follows the flip layer: nothing while the lattice stands, a reconcile
/// otherwise.
pub open spec fn maintained(state: KeelState, ctx: StrategyContext, mid: Decimal) -> Option<
    (KeelState, Seq<Action>),
> {
    match settled(state, ctx, mid) {
        None => None,
        Some(true) => Some((state, seq![Action::NoOp])),
        Some(false) => {
            let origin = match state.origin {
                Some(origin) => origin,
                None => mid,
            };
            let next = KeelState {
                last_reconcile_mid: Some(mid),
                origin: Some(origin),
                ..state
            };
            match desired(next, ctx, mid) {
                None => None,
                Some(wanted) => if wanted.len() == 0 && ctx.open_quotes@.len() == 0 {
                    Some((next, seq![Action::NoOp]))
                } else {
                    match reconciled(state.config, ctx, wanted, mid) {
                        None => None,
                        Some(actions) => Some((next, actions)),
                    }
                },
            }
        },
    }
}

/// The state and actions that an event calls for.
pub open spec fn keel_step(state: KeelState, ctx: StrategyContext) -> Option<
    (KeelState, Seq<Action>),
> {
    match mid_strict(*ctx.latest_book) {
        None => None,
        Some(None) => Some((state, seq![Action::NoOp])),
        Some(Some(mid)) => if mid.0@ <= 0 {
            Some((state, seq![Action::NoOp]))
        } else {
            match recorded(state, ctx.now.0, mid.0) {
                None => None,
                Some(seen) => match flip_due(seen, ctx, mid.0) {
                    None => None,
                    Some(true) => match flip_order(seen, ctx) {
                        None => None,
                        Some(actions) => Some(
                            (KeelState { last_flip_ts: Some(ctx.now.0), ..seen }, actions),
                        ),
                    },
                    Some(false) => maintained(seen, ctx, mid.0),
                },
            }
        },
    }
}

proof fn lemma_rungs_fail(
    state: KeelState,
    frame: Frame,
    ctx: StrategyContext,
    from: int,
    less: nat,
    more: nat,
)
    requires
        less <= more,
        rungs(state, frame, ctx, from, less) is None,
    ensures
        rungs(state, frame, ctx, from, more) is None,
    decreases more,
{
    if less < more {
        lemma_rungs_fail(state, frame, ctx, from, less, (more - 1) as nat);
    }
}

proof fn lemma_placing_fails(open: Seq<(QuoteId, QuoteIntent)>, wanted: Seq<QuoteIntent>, n: int)
    requires
        0 <= n <= wanted.len(),
        placing(open, wanted.take(n)) is None,
    ensures
        placing(open, wanted) is None,
    decreases wanted.len() - n,
{
    if n < wanted.len() {
        assert(wanted.take(n + 1).drop_last() =~= wanted.take(n));
        lemma_placing_fails(open, wanted, n + 1);
    } else {
        assert(wanted.take(n) =~= wanted);
    }
}

proof fn lemma_unclaimed_fails(
    open: Seq<(QuoteId, QuoteIntent)>,
    claimed: Seq<QuoteId>,
    pegged: Option<Side>,
    mid: Decimal,
    n: int,
)
    requires
        0 <= n <= open.len(),
        unclaimed(open.take(n), claimed, pegged, mid) is None,
    ensures
        unclaimed(open, claimed, pegged, mid) is None,
    decreases open.len() - n,
{
    if n < open.len() {
        assert(open.take(n + 1).drop_last() =~= open.take(n));
        lemma_unclaimed_fails(open, claimed, pegged, mid, n + 1);
    } else {
        assert(open.take(n) =~= open);
    }
}

proof fn lemma_path_fails(history: Seq<(u64, Decimal)>, n: int)
    requires
        0 <= n <= history.len(),
        path_length(history.take(n)) is None,
    ensures
        path_length(history) is None,
    decreases history.len() - n,
{
    if n < history.len() {
        assert(history.take(n + 1).drop_last() =~= history.take(n));
        lemma_path_fails(history, n + 1);
    } else {
        assert(history.take(n) =~= history);
    }
}

proof fn lemma_resting_found(
    open: Seq<(QuoteId, QuoteIntent)>,
    price: Price,
    side: Side,
    n: int,
)
    requires
        0 <= n <= open.len(),
        resting_at(open.take(n), price, side) is Some,
    ensures
        resting_at(open, price, side) == resting_at(open.take(n), price, side),
    decreases open.len() - n,
{
    if n < open.len() {
        assert(open.take(n + 1).drop_last() =~= open.take(n));
        lemma_resting_found(open, price, side, n + 1);
    } else {
        assert(open.take(n) =~= open);
    }
}

fn find_resting(open: &[(QuoteId, QuoteIntent)], price: Price, side: Side) -> (result: Option<usize>)
    ensures
        match result {
            Some(i) => i < open@.len() && resting_at(open@, price, side) == Some(open@[i as int]),
            None => resting_at(open@, price, side) is None,
        },
{
    let mut i: usize = 0;
    assert(open@.take(0) =~= Seq::empty());
    while i < open.len()
        invariant
            i <= open@.len(),
            resting_at(open@.take(i as int), price, side) is None,
        decreases open@.len() - i,
    {
        let quote = &open[i].1;
        assert(open@.take(i + 1).drop_last() =~= open@.take(i as int));
        if quote.price.0.same_digits(price.0) && quote.side == side {
            proof {
                lemma_resting_found(open@, price, side, i + 1);
            }
            return Some(i);
        }
        i = i + 1;
    }
    assert(open@.take(i as int) =~= open@);
    None
}

fn push_order(orders: &mut Vec<QuoteIntent>, order: QuoteIntent)
    ensures
        final(orders)@ =~= with_order(old(orders)@, order),
{
    let mut i: usize = 0;
    while i < orders.len()
        invariant
            i <= orders@.len(),
            orders@ == old(orders)@,
            forall|j: int| 0 <= j < i ==> (#[trigger] orders@[j]).price != order.price,
        decreases orders@.len() - i,
    {
        if orders[i].price.0.same_digits(order.price.0) {
            return;
        }
        i = i + 1;
    }
    orders.push(order);
}

fn is_claimed(claimed: &Vec<QuoteId>, id: QuoteId) -> (result: bool)
    ensures
        result == claimed@.contains(id),
{
    let mut i: usize = 0;
    while i < claimed.len()
        invariant
            i <= claimed@.len(),
            forall|j: int| 0 <= j < i ==> claimed@[j] != id,
        decreases claimed@.len() - i,
    {
        if claimed[i] == id {
            return true;
        }
        i = i + 1;
    }
    false
}

impl Keel {
    fn record_mid(&mut self, now: u64, mid: Decimal) -> (result: Option<()>)
        ensures
            match recorded(old(self)@, now, mid) {
                Some(next) => result is Some && final(self)@ == next,
                None => result is None,
            },
    {
        if self.config.trend_window_secs == 0 {
            return Some(());
        }
        let window_ns: u64 = try_seconds(self.config.trend_window_secs)?;
        self.mid_history.push_back((now, mid));
        let cutoff: u64 = now.saturating_sub(window_ns);
        drop_older(&mut self.mid_history, cutoff);
        Some(())
    }

    fn try_path_length(&self) -> (result: Option<Decimal>)
        requires
            self.mid_history@.len() > 0,
        ensures
            result == path_length(self.mid_history@),
    {
        let ghost h = self.mid_history@;
        let mut path = Decimal::zero();
        let mut prev = self.mid_history[0].1;
        let mut i: usize = 1;
        while i < self.mid_history.len()
            invariant
                h == self.mid_history@,
                1 <= i <= h.len(),
                path_length(h.take(i as int)) == Some(path),
                prev == h[i - 1].1,
            decreases h.len() - i,
        {
            let mid = self.mid_history[i].1;
            proof {
                let longer = h.take(i + 1);
                assert(longer.drop_last() =~= h.take(i as int));
                assert(longer.last() == h[i as int]);
                assert(longer[longer.len() - 2] == h[i - 1]);
                if path_length(longer) is None {
                    lemma_path_fails(h, i + 1);
                }
            }
            let leg = mid.checked_sub(prev)?.abs();
            path = path.checked_add(leg)?;
            prev = mid;
            i = i + 1;
        }
        assert(h.take(i as int) =~= h);
        Some(path)
    }

    fn is_stopped_out(&self, pos: Decimal, avg: Decimal, mid: Decimal) -> (result: Option<bool>)
        ensures
            result == stopped_out(self.config, pos, avg, mid),
            result == Some(true) ==> self.config.sar_trigger_bps@ > 0,
            result is Some && self.config.sar_trigger_bps@ > 0 && avg@ > 0 ==> {
                let trigger = fraction(self.config.sar_trigger_bps)->0@;
                &&& pos@ > 0 && exact_difference(avg, mid) ==> trips(
                    avg@ - mid@,
                    avg@,
                    trigger,
                    result->0,
                )
                &&& pos@ <= 0 && exact_difference(mid, avg) ==> trips(
                    mid@ - avg@,
                    avg@,
                    trigger,
                    result->0,
                )
            },
    {
        if !self.config.sar_trigger_bps.is_positive() {
            return Some(false);
        }
        let lost = if pos.is_positive() {
            avg.checked_sub(mid)?
        } else {
            mid.checked_sub(avg)?
        };
        let adverse = lost.checked_div(avg)?;
        let trigger = try_fraction(self.config.sar_trigger_bps)?;
        proof {
            use_type_invariant(&trigger);
            if avg@ > 0 {
                lemma_trips(lost, avg, adverse, trigger);
            }
        }
        Some(adverse.is_at_least(trigger))
    }

    fn is_trend_against(&self, pos: Decimal) -> (result: Option<bool>)
        ensures
            result == trend_against(self@, pos),
    {
        if self.config.trend_window_secs == 0 || self.mid_history.len() < 3 {
            return Some(false);
        }
        let first = self.mid_history[0].1;
        let last = self.mid_history[self.mid_history.len() - 1].1;
        let net = last.checked_sub(first)?;
        let path = self.try_path_length()?;
        if !path.is_positive() {
            return Some(false);
        }
        let ratio = net.abs().checked_div(path)?;
        let adverse = if pos.is_positive() {
            net.is_negative()
        } else {
            net.is_positive()
        };
        Some(ratio.is_at_least(self.config.trend_min_ratio) && adverse)
    }

    fn should_flip(&self, pos: Decimal, avg: Decimal, mid: Decimal) -> (result: Option<bool>)
        ensures
            result == flips(self@, pos, avg, mid),
    {
        if pos.is_zero() || !avg.is_positive() {
            return Some(false);
        }
        if self.is_stopped_out(pos, avg, mid)? {
            return Some(true);
        }
        self.is_trend_against(pos)
    }

    fn is_cooling(&self, now: u64) -> (result: Option<bool>)
        ensures
            result == cooling(self@, now),
    {
        match self.last_flip_ts {
            None => Some(false),
            Some(last) => {
                let cooldown_ns: u64 = try_seconds(self.config.flip_cooldown_secs)?;
                Some(now.saturating_sub(last) < cooldown_ns)
            },
        }
    }

    fn is_flip_due(&self, ctx: &StrategyContext<'_>, mid: Decimal) -> (result: Option<bool>)
        ensures
            result == flip_due(self@, *ctx, mid),
    {
        let armed = self.config.sar_trigger_bps.is_positive() || self.config.trend_window_secs > 0;
        if !armed || ctx.position.size.0.is_zero() {
            return Some(false);
        }
        if self.is_cooling(ctx.now.0)? {
            return Some(false);
        }
        self.should_flip(ctx.position.size.0, ctx.position.avg_entry.0, mid)
    }

    fn emit_flip(&self, ctx: &StrategyContext<'_>) -> (result: Option<Vec<Action>>)
        ensures
            match flip_order(self@, *ctx) {
                Some(actions) => result is Some && result->0@ =~= actions,
                None => result is None,
            },
    {
        let pos = ctx.position.size.0;
        let long = pos.is_positive();
        let side = if long {
            Side::Ask
        } else {
            Side::Bid
        };
        let book = if long {
            &ctx.latest_book.bids
        } else {
            &ctx.latest_book.asks
        };
        if book.len() == 0 {
            return Some(vec![Action::NoOp]);
        }
        let size = pos.abs().checked_mul(Decimal::whole(2))?;
        let intent = self.grid.try_intent(ctx.symbol, side, book[0].price.0, size)?;
        let flip = QuoteIntent { tif: TimeInForce::IOC, ..intent };
        Some(vec![Action::Quote(flip)])
    }

    fn try_rung_side(frame: &Frame, price: Decimal) -> (result: Option<Option<Side>>)
        ensures
            result == rung_side(*frame, price),
            frame.mid@ >= 0 && frame.inner@ >= 0 ==> {
                &&& result == Some(Some(Side::Bid)) ==> price@ < frame.mid@
                &&& result == Some(Some(Side::Ask)) ==> price@ > frame.mid@
                &&& exact_difference(frame.mid, frame.inner) && exact_sum(frame.mid, frame.inner)
                    && magnitude(price@ - frame.mid@) <= frame.inner@ ==> result == Some(None::<Side>)
                &&& exact_difference(frame.mid, frame.inner) && exact_sum(frame.mid, frame.inner)
                    && magnitude(price@ - frame.mid@) > frame.inner@ ==> result == Some(
                    Some(
                        if price@ < frame.mid@ {
                            Side::Bid
                        } else {
                            Side::Ask
                        },
                    ),
                )
            },
    {
        let low = frame.mid.checked_sub(frame.inner)?;
        if price.is_less(low) {
            return Some(Some(Side::Bid));
        }
        let high = frame.mid.checked_add(frame.inner)?;
        if price.is_more(high) {
            Some(Some(Side::Ask))
        } else {
            Some(None)
        }
    }

    fn would_cross(ctx: &StrategyContext<'_>, side: Side, price: Decimal) -> (result: bool)
        ensures
            result == crosses(*ctx, side, price),
    {
        match side {
            Side::Bid => ctx.latest_book.asks.len() > 0 && price.is_at_least(
                ctx.latest_book.asks[0].price.0,
            ),
            Side::Ask => ctx.latest_book.bids.len() > 0 && price.is_at_most(
                ctx.latest_book.bids[0].price.0,
            ),
        }
    }

    fn wants_rungs(&self, frame: &Frame, ctx: &StrategyContext<'_>, side: Side) -> (result: bool)
        ensures
            result == rungs_wanted(self.config, *frame, *ctx, side),
    {
        let pos = ctx.position.size.0;
        let adding = if pos.is_negative() {
            Side::Ask
        } else {
            Side::Bid
        };
        if pos.is_zero() {
            true
        } else if side == adding {
            !frame.capped
        } else {
            self.config.mode == KeelMode::Lattice
        }
    }

    fn try_rung_size(&self, frame: &Frame, price: Decimal) -> (result: Option<Decimal>)
        ensures
            result == rung_size(self.config, *frame, price),
    {
        let away = price.checked_sub(frame.mid)?.abs();
        let depth = away.checked_div(frame.step)?.round();
        let ramp = Decimal::one().checked_add(self.config.size_ramp.checked_mul(depth)?)?;
        self.config.notional_per_order.checked_mul(ramp)?.checked_div(price)
    }

    fn try_rung(&self, frame: &Frame, ctx: &StrategyContext<'_>, k: i64) -> (result: Option<
        Option<QuoteIntent>,
    >)
        ensures
            result == rung(self@, *frame, *ctx, k as int),
    {
        let price = frame.origin.checked_add(Decimal::whole(k).checked_mul(frame.step)?)?;
        if !price.is_positive() {
            return Some(None);
        }
        match Self::try_rung_side(frame, price)? {
            None => Some(None),
            Some(side) => {
                if Self::would_cross(ctx, side, price) || !self.wants_rungs(frame, ctx, side) {
                    return Some(None);
                }
                let size = self.try_rung_size(frame, price)?;
                Some(Some(self.grid.try_intent(ctx.symbol, side, price, size)?))
            },
        }
    }

    fn try_band(&self, frame: &Frame, ctx: &StrategyContext<'_>) -> (result: Option<
        Vec<QuoteIntent>,
    >)
        ensures
            match band(self@, *frame, *ctx) {
                Some(orders) => result is Some && result->0@ =~= orders,
                None => result is None,
            },
    {
        let levels: i64 = self.config.levels as i64;
        let steps = frame.mid.checked_sub(frame.origin)?.checked_div(frame.step)?.round();
        let middle: i64 = match steps.to_i64() {
            Some(k) => k,
            None => 0,
        };
        let from: i64 = middle.checked_sub(levels)?;
        let last: i64 = middle.checked_add(levels)?;
        let count: i64 = 2 * levels + 1;
        let mut orders: Vec<QuoteIntent> = Vec::new();
        let mut done: i64 = 0;
        while done < count
            invariant
                0 <= done <= count,
                count == 2 * levels + 1,
                levels == self.config.levels,
                last == from + 2 * levels,
                band(self@, *frame, *ctx) == rungs(
                    self@,
                    *frame,
                    *ctx,
                    from as int,
                    count as nat,
                ),
                rungs(self@, *frame, *ctx, from as int, done as nat) == Some(orders@),
            decreases count - done,
        {
            proof {
                if rungs(self@, *frame, *ctx, from as int, (done + 1) as nat) is None {
                    lemma_rungs_fail(
                        self@,
                        *frame,
                        *ctx,
                        from as int,
                        (done + 1) as nat,
                        count as nat,
                    );
                }
            }
            let k: i64 = from + done;
            if let Some(order) = self.try_rung(frame, ctx, k)? {
                push_order(&mut orders, order);
            }
            done = done + 1;
        }
        Some(orders)
    }

    /// Side and price of the order that reduces the position, where it is pegged to the
    /// average entry: never on the losing side of that average, and beyond it where the
    /// margin is clear.
    pub fn try_reduce_price(config: &KeelConfig, ctx: &StrategyContext<'_>) -> (result: Option<
        Option<(Side, Decimal)>,
    >)
        ensures
            result == reduce_price(*config, *ctx),
            config.reduce_bps@ >= 0 ==> match result {
                Some(Some((Side::Ask, price))) => price@ >= ctx.position.avg_entry.0@ && (
                clear_margin(*config, *ctx) ==> price@ > ctx.position.avg_entry.0@),
                Some(Some((Side::Bid, price))) => price@ <= ctx.position.avg_entry.0@ && (
                clear_margin(*config, *ctx) ==> price@ < ctx.position.avg_entry.0@),
                _ => true,
            },
    {
        let pos = ctx.position.size.0;
        let avg = ctx.position.avg_entry.0;
        if config.mode == KeelMode::Lattice || pos.is_zero() || !avg.is_positive() {
            return Some(None);
        }
        let off = try_fraction(config.reduce_bps)?;
        proof {
            crate::decimal::lemma_whole(1);
            crate::decimal::lemma_pow10_positive(28);
        }
        if pos.is_positive() {
            let touch = if ctx.latest_book.asks.len() > 0 {
                ctx.latest_book.asks[0].price.0
            } else {
                Decimal::zero()
            };
            let raw = avg.checked_mul(Decimal::one().checked_add(off)?)?;
            proof {
                if clear_margin(*config, *ctx) {
                    let (a, r, o, p) = (avg@, raw@, off@, pow10(28));
                    assert(r > a) by (nonlinear_arith)
                        requires
                            r * p == a * (p + o),
                            a > 0,
                            o > 0,
                            p >= 1,
                    ;
                }
            }
            let price = raw.max(touch);
            if price.is_positive() {
                Some(Some((Side::Ask, price)))
            } else {
                Some(None)
            }
        } else {
            let raw = avg.checked_mul(Decimal::one().checked_sub(off)?)?;
            proof {
                if clear_margin(*config, *ctx) {
                    let (a, r, o, p) = (avg@, raw@, off@, pow10(28));
                    assert(r < a) by (nonlinear_arith)
                        requires
                            r * p == a * (p - o),
                            a > 0,
                            o > 0,
                            p >= 1,
                    ;
                }
            }
            let price = if ctx.latest_book.bids.len() > 0 {
                raw.min(ctx.latest_book.bids[0].price.0)
            } else {
                raw
            };
            if price.is_positive() {
                Some(Some((Side::Bid, price)))
            } else {
                Some(None)
            }
        }
    }

    fn try_frame(&self, ctx: &StrategyContext<'_>, origin: Decimal, mid: Decimal) -> (result:
        Option<Option<Frame>>)
        ensures
            result == framed(self.config, *ctx, origin, mid),
            result matches Some(Some(frame)) ==> {
                let (step, inner) = (fraction(self.config.step_bps)->0, fraction(self.config.inner_bps)->0);
                &&& frame.mid == mid && frame.origin == origin
                &&& exact_product(origin, step) ==> frame.step@ * pow10(28) == origin@ * step@
                &&& exact_product(mid, inner) ==> frame.inner@ * pow10(28) == mid@ * inner@
                &&& exact_product(absolute(ctx.position.size.0), mid) ==> frame.capped == (
                self.config.max_position_notional@ > 0 && magnitude(ctx.position.size.0@) * mid@
                    >= self.config.max_position_notional@ * pow10(28))
            },
    {
        let step = origin.checked_mul(try_fraction(self.config.step_bps)?)?;
        if !step.is_positive() {
            return Some(None);
        }
        let inner = mid.checked_mul(try_fraction(self.config.inner_bps)?)?;
        let value = ctx.position.size.0.abs().checked_mul(mid)?;
        proof {
            crate::decimal::lemma_pow10_positive(28);
            let (v, m, p) = (value@, self.config.max_position_notional@, pow10(28));
            assert((v >= m) == (v * p >= m * p)) by (nonlinear_arith)
                requires
                    p >= 1,
            ;
        }
        let capped = self.config.max_position_notional.is_positive() && value.is_at_least(
            self.config.max_position_notional,
        );
        Some(Some(Frame { mid, origin, step, inner, capped }))
    }

    fn try_desired(&self, ctx: &StrategyContext<'_>, mid: Decimal) -> (result: Option<
        Vec<QuoteIntent>,
    >)
        ensures
            match desired(self@, *ctx, mid) {
                Some(orders) => result is Some && result->0@ =~= orders,
                None => result is None,
            },
            self.config.mode is Trailing && self.config.reduce_bps@ >= 0 ==> (result matches Some(
                orders,
            ) ==> forall|i: int|
                0 <= i < orders@.len() ==> reduces_at_no_loss(
                    self.config,
                    *ctx,
                    #[trigger] orders@[i],
                )),
    {
        let origin = match self.origin {
            Some(origin) => origin,
            None => mid,
        };
        match self.try_frame(ctx, origin, mid)? {
            None => Some(Vec::new()),
            Some(frame) => {
                let mut orders = self.try_band(&frame, ctx)?;
                proof {
                    let levels = self.config.levels as int;
                    let from = middle_rung(frame)->0 - levels;
                    lemma_rungs(self@, frame, *ctx, from, (2 * levels + 1) as nat);
                }
                if let Some((side, price)) = Self::try_reduce_price(&self.config, ctx)? {
                    let order = self.grid.try_intent_off_market(
                        ctx.symbol,
                        side,
                        price,
                        ctx.position.size.0.abs(),
                    )?;
                    push_order(&mut orders, order);
                }
                Some(orders)
            },
        }
    }

    fn place(
        open: &[(QuoteId, QuoteIntent)],
        wanted: &Vec<QuoteIntent>,
        actions: &mut Vec<Action>,
        claimed: &mut Vec<QuoteId>,
    ) -> (result: Option<usize>)
        requires
            old(actions)@.len() == 0,
            old(claimed)@.len() == 0,
        ensures
            match placing(open@, wanted@) {
                Some(placed) => result is Some && final(actions)@ =~= placed.actions && final(claimed)@ =~= placed.claimed && result->0 == placed.fresh,
                None => result is None,
            },
    {
        let mut fresh: usize = 0;
        let mut i: usize = 0;
        while i < wanted.len()
            invariant
                i <= wanted@.len(),
                fresh <= i,
                placing(open@, wanted@.take(i as int)) is Some,
                placing(open@, wanted@.take(i as int))->0.actions =~= actions@,
                placing(open@, wanted@.take(i as int))->0.claimed =~= claimed@,
                placing(open@, wanted@.take(i as int))->0.fresh == fresh,
            decreases wanted@.len() - i,
        {
            proof {
                let longer = wanted@.take(i + 1);
                assert(longer.drop_last() =~= wanted@.take(i as int));
                assert(longer.last() == wanted@[i as int]);
                if placing(open@, longer) is None {
                    lemma_placing_fails(open@, wanted@, i + 1);
                }
            }
            let order = &wanted[i];
            match find_resting(open, order.price, order.side) {
                None => {
                    actions.push(Action::Quote(order.clone()));
                    fresh = fresh + 1;
                },
                Some(at) => {
                    let id = open[at].0;
                    let off = is_size_off(open[at].1.size.0, order.size.0)?;
                    claimed.push(id);
                    if off {
                        actions.push(Action::Requote { id, intent: order.clone() });
                    }
                },
            }
            i = i + 1;
        }
        assert(wanted@.take(i as int) =~= wanted@);
        Some(fresh)
    }

    fn sort_out(
        open: &[(QuoteId, QuoteIntent)],
        claimed: &Vec<QuoteId>,
        pegged: Option<Side>,
        mid: Decimal,
        actions: &mut Vec<Action>,
    ) -> (result: Option<Vec<Outskirt>>)
        ensures
            match unclaimed(open@, claimed@, pegged, mid) {
                Some((stale, outskirts)) => result is Some && result->0@ =~= outskirts && final(actions)@ =~= old(actions)@ + stale,
                None => result is None,
            },
    {
        let mut outskirts: Vec<Outskirt> = Vec::new();
        let mut i: usize = 0;
        while i < open.len()
            invariant
                i <= open@.len(),
                unclaimed(open@.take(i as int), claimed@, pegged, mid) is Some,
                actions@ =~= old(actions)@ + (unclaimed(
                    open@.take(i as int),
                    claimed@,
                    pegged,
                    mid,
                )->0).0,
                outskirts@ =~= (unclaimed(open@.take(i as int), claimed@, pegged, mid)->0).1,
            decreases open@.len() - i,
        {
            proof {
                let longer = open@.take(i + 1);
                assert(longer.drop_last() =~= open@.take(i as int));
                assert(longer.last() == open@[i as int]);
                if unclaimed(longer, claimed@, pegged, mid) is None {
                    lemma_unclaimed_fails(open@, claimed@, pegged, mid, i + 1);
                }
            }
            let id = open[i].0;
            let intent = &open[i].1;
            let stale = match pegged {
                Some(side) => side == intent.side,
                None => false,
            };
            if !is_claimed(claimed, id) {
                if stale {
                    actions.push(Action::Cancel(id));
                } else {
                    let distance = intent.price.0.checked_sub(mid)?.abs();
                    outskirts.push(Outskirt { id, distance });
                }
            }
            i = i + 1;
        }
        assert(open@.take(i as int) =~= open@);
        Some(outskirts)
    }

    fn trim(&self, outskirts: &Vec<Outskirt>, resting: u128, actions: &mut Vec<Action>)
        ensures
            final(actions)@ =~= old(actions)@ + cancels(
                sorted(outskirts@),
                surplus(resting as int, self.config.max_open as int, outskirts@.len() as int),
            ),
    {
        let cap: u128 = self.config.max_open as u128;
        let farthest = sort_ranked(outskirts);
        proof {
            crate::sorting::law_sorted(outskirts@);
        }
        if resting < cap {
            return;
        }
        let excess: u128 = resting - cap;
        let n: usize = if excess < farthest.len() as u128 {
            excess as usize
        } else {
            farthest.len()
        };
        let mut i: usize = 0;
        while i < n
            invariant
                i <= n <= farthest@.len(),
                actions@ =~= old(actions)@ + cancels(farthest@, i as int),
            decreases n - i,
        {
            actions.push(Action::Cancel(farthest[i].id));
            i = i + 1;
        }
    }

    fn reconcile(&self, ctx: &StrategyContext<'_>, wanted: &Vec<QuoteIntent>, mid: Decimal)
        -> (result: Option<Vec<Action>>)
        ensures
            match reconciled(self.config, *ctx, wanted@, mid) {
                Some(actions) => result is Some && result->0@ =~= actions,
                None => result is None,
            },
    {
        let mut actions: Vec<Action> = Vec::new();
        let mut claimed: Vec<QuoteId> = Vec::new();
        let fresh: usize = Self::place(ctx.open_quotes, wanted, &mut actions, &mut claimed)?;
        let pos = ctx.position.size.0;
        let pegged = if self.config.mode == KeelMode::Lattice || pos.is_zero() {
            None
        } else if pos.is_positive() {
            Some(Side::Ask)
        } else {
            Some(Side::Bid)
        };
        let outskirts = Self::sort_out(ctx.open_quotes, &claimed, pegged, mid, &mut actions)?;
        let resting: u128 = ctx.open_quotes.len() as u128 + fresh as u128;
        self.trim(&outskirts, resting, &mut actions);
        if actions.len() == 0 {
            actions.push(Action::NoOp);
        }
        Some(actions)
    }

    fn is_settled(&self, ctx: &StrategyContext<'_>, mid: Decimal) -> (result: Option<bool>)
        ensures
            result == settled(self@, *ctx, mid),
    {
        if ctx.recent_fills.len() > 0 || ctx.open_quotes.len() == 0 {
            return Some(false);
        }
        match self.last_reconcile_mid {
            None => Some(false),
            Some(last) => {
                let moved = mid.checked_sub(last)?.abs().checked_div(mid)?;
                let step = try_fraction(self.config.step_bps)?;
                Some(moved.is_less(step))
            },
        }
    }

    fn maintain(&mut self, ctx: &StrategyContext<'_>, mid: Decimal) -> (result: Option<Vec<Action>>)
        ensures
            follows(maintained(old(self)@, *ctx, mid), result, final(self)@),
            old(self).config.mode is Trailing && old(self).config.reduce_bps@ >= 0 ==> (
            result matches Some(actions) ==> all_reduce_at_no_loss(
                old(self).config,
                *ctx,
                actions@,
            )),
    {
        if self.is_settled(ctx, mid)? {
            return Some(vec![Action::NoOp]);
        }
        self.last_reconcile_mid = Some(mid);
        if self.origin.is_none() {
            self.origin = Some(mid);
        }
        let wanted = self.try_desired(ctx, mid)?;
        if wanted.len() == 0 && ctx.open_quotes.len() == 0 {
            return Some(vec![Action::NoOp]);
        }
        proof {
            if self.config.mode is Trailing && self.config.reduce_bps@ >= 0 {
                lemma_reconciled_at_no_loss(self.config, *ctx, wanted@, mid);
            }
        }
        self.reconcile(ctx, &wanted, mid)
    }
}

impl Strategy for Keel {
    type Config = KeelConfig;

    open spec fn initial(config: KeelConfig) -> Option<KeelState> {
        match grid(config.tick_size, config.step_size, config.min_notional) {
            None => None,
            Some(grid) => Some(
                KeelState {
                    config,
                    grid,
                    origin: None,
                    last_reconcile_mid: None,
                    last_flip_ts: None,
                    mid_history: Seq::empty(),
                },
            ),
        }
    }

    open spec fn event_step(state: KeelState, ctx: StrategyContext, event: MarketEvent) -> Option<
        (KeelState, Seq<Action>),
    > {
        keel_step(state, ctx)
    }

    open spec fn rejection_step(
        state: KeelState,
        ctx: StrategyContext,
        intent: QuoteIntent,
        reason: Seq<char>,
    ) -> Option<(KeelState, Seq<Action>)> {
        Some((state, Seq::empty()))
    }

    fn try_new(config: KeelConfig) -> (result: Option<Keel>) {
        let grid = Grid::try_new(config.tick_size, config.step_size, config.min_notional)?;
        let keel = Keel {
            config,
            grid,
            origin: None,
            last_reconcile_mid: None,
            last_flip_ts: None,
            mid_history: VecDeque::new(),
        };
        assert(keel@.mid_history =~= Seq::empty());
        Some(keel)
    }

    fn name(&self) -> (result: &str)
        ensures
            result@ == "keel"@,
    {
        "keel"
    }

    /// In trailing mode no resting order is placed on the losing side of the average entry.
    fn try_on_event(&mut self, ctx: &StrategyContext<'_>, event: &MarketEvent) -> (result: Option<
        Vec<Action>,
    >)
        ensures
            old(self).config.mode is Trailing && old(self).config.reduce_bps@ >= 0 ==> (
            result matches Some(actions) ==> all_reduce_at_no_loss(
                old(self).config,
                *ctx,
                actions@,
            )),
    {
        let mid = match compute_mid_strict(ctx.latest_book)? {
            Some(mid) => mid.0,
            None => {
                return Some(vec![Action::NoOp]);
            },
        };
        if !mid.is_positive() {
            return Some(vec![Action::NoOp]);
        }
        self.record_mid(ctx.now.0, mid)?;
        if self.is_flip_due(ctx, mid)? {
            self.last_flip_ts = Some(ctx.now.0);
            return self.emit_flip(ctx);
        }
        self.maintain(ctx, mid)
    }

    /// In trailing mode no resting order is placed on the losing side of the average entry.
    fn on_event(&mut self, ctx: &StrategyContext<'_>, event: &MarketEvent) -> (result: Vec<Action>)
        ensures
            old(self).config.mode is Trailing && old(self).config.reduce_bps@ >= 0
                ==> all_reduce_at_no_loss(old(self).config, *ctx, result@),
    {
        self.try_on_event(ctx, event).unwrap()
    }

    fn try_on_quote_rejected(
        &mut self,
        ctx: &StrategyContext<'_>,
        intent: &QuoteIntent,
        reason: &str,
    ) -> (result: Option<Vec<Action>>) {
        Some(Vec::new())
    }
}

/// The anchor of the lattice never moves once it is set.
pub proof fn law_origin_is_frozen(state: KeelState, ctx: StrategyContext, event: MarketEvent)
    requires
        state.origin is Some,
    ensures
        Keel::event_step(state, ctx, event) matches Some((next, _)) ==> next.origin == state.origin,
{
}

proof fn lemma_resting_is_open(open: Seq<(QuoteId, QuoteIntent)>, price: Price, side: Side)
    ensures
        resting_at(open, price, side) matches Some(quote) ==> open.contains(quote) && quote.1.price
            == price && quote.1.side == side,
    decreases open.len(),
{
    if open.len() > 0 {
        let front = open.drop_last();
        lemma_resting_is_open(front, price, side);
        if let Some(quote) = resting_at(front, price, side) {
            let i = choose|i: int| 0 <= i < front.len() && front[i] == quote;
            assert(open[i] == quote);
        } else {
            assert(open[open.len() - 1] == open.last());
        }
    }
}

/// Whether an action leaves the price and side of what rests alone: it is no requote,
/// or one at the price and on the side of the quote it replaces.
pub open spec fn keeps_place(open: Seq<(QuoteId, QuoteIntent)>, action: Action) -> bool {
    action matches Action::Requote { id, intent } ==> exists|j: int|
        0 <= j < open.len() && (#[trigger] open[j]).0 == id && open[j].1.price == intent.price
            && open[j].1.side == intent.side
}

proof fn lemma_placing_keeps_places(open: Seq<(QuoteId, QuoteIntent)>, wanted: Seq<QuoteIntent>)
    ensures
        placing(open, wanted) matches Some(placed) ==> forall|i: int|
            0 <= i < placed.actions.len() ==> keeps_place(open, #[trigger] placed.actions[i]),
    decreases wanted.len(),
{
    if wanted.len() > 0 {
        let order = wanted.last();
        lemma_placing_keeps_places(open, wanted.drop_last());
        lemma_resting_is_open(open, order.price, order.side);
    }
}

proof fn lemma_stale_are_cancels(
    open: Seq<(QuoteId, QuoteIntent)>,
    claimed: Seq<QuoteId>,
    pegged: Option<Side>,
    mid: Decimal,
)
    ensures
        unclaimed(open, claimed, pegged, mid) matches Some((stale, _)) ==> forall|i: int|
            0 <= i < stale.len() ==> (#[trigger] stale[i]) is Cancel,
    decreases open.len(),
{
    if open.len() > 0 {
        lemma_stale_are_cancels(open.drop_last(), claimed, pegged, mid);
    }
}

/// A resting level is never repriced: what replaces a quote rests at its price and on
/// its side.
pub proof fn law_levels_are_never_repriced(
    config: KeelConfig,
    ctx: StrategyContext,
    wanted: Seq<QuoteIntent>,
    mid: Decimal,
)
    ensures
        reconciled(config, ctx, wanted, mid) matches Some(actions) ==> forall|i: int|
            0 <= i < actions.len() ==> keeps_place(ctx.open_quotes@, #[trigger] actions[i]),
{
    let open = ctx.open_quotes@;
    lemma_placing_keeps_places(open, wanted);
    if let Some(placed) = placing(open, wanted) {
        lemma_stale_are_cancels(
            open,
            placed.claimed,
            pegged_side(config, ctx.position.size.0),
            mid,
        );
    }
}

/// The quotes that are trimmed are at least as far from the mid as those that stay.
pub proof fn law_trims_the_farthest(outskirts: Seq<Outskirt>, n: int, i: int, j: int)
    requires
        0 <= i < n <= j < outskirts.len(),
    ensures
        sorted(outskirts)[i].distance@ >= sorted(outskirts)[j].distance@,
{
    crate::sorting::law_sorted(outskirts);
}

/// Within the cooldown of a flip the position is not flipped again.
pub proof fn law_no_flip_within_cooldown(
    state: KeelState,
    ctx: StrategyContext,
    event: MarketEvent,
    last: u64,
    cooldown_ns: u64,
)
    requires
        state.last_flip_ts == Some(last),
        seconds(state.config.flip_cooldown_secs) == Some(cooldown_ns),
        elapsed(ctx.now.0, last) < cooldown_ns,
    ensures
        Keel::event_step(state, ctx, event) matches Some((next, _)) ==> next.last_flip_ts == Some(
            last,
        ),
{
}

/// A flat position is never flipped.
pub proof fn law_flat_is_not_flipped(state: KeelState, ctx: StrategyContext, event: MarketEvent)
    requires
        ctx.position.size.0@ == 0,
    ensures
        Keel::event_step(state, ctx, event) matches Some((next, _)) ==> next.last_flip_ts
            == state.last_flip_ts,
{
}

/// Whether no two orders are written with the same price.
pub open spec fn prices_differ(orders: Seq<QuoteIntent>) -> bool {
    forall|i: int, j: int|
        0 <= i < j < orders.len() ==> (#[trigger] orders[i]).price != (#[trigger] orders[j]).price
}

proof fn lemma_rungs(state: KeelState, frame: Frame, ctx: StrategyContext, from: int, count: nat)
    ensures
        rungs(state, frame, ctx, from, count) matches Some(orders) ==> prices_differ(orders)
            && forall|i: int|
            0 <= i < orders.len() ==> rungs_wanted(
                state.config,
                frame,
                ctx,
                (#[trigger] orders[i]).side,
            ),
    decreases count,
{
    if count > 0 {
        lemma_rungs(state, frame, ctx, from, (count - 1) as nat);
    }
}

/// No two wanted orders share a price.
pub proof fn law_wanted_prices_differ(state: KeelState, ctx: StrategyContext, mid: Decimal)
    ensures
        desired(state, ctx, mid) matches Some(orders) ==> prices_differ(orders),
{
    let origin = match state.origin {
        Some(origin) => origin,
        None => mid,
    };
    if let Some(Some(frame)) = framed(state.config, ctx, origin, mid) {
        if let Some(middle) = middle_rung(frame) {
            let levels = state.config.levels as int;
            lemma_rungs(state, frame, ctx, middle - levels, (2 * levels + 1) as nat);
        }
    }
}

/// While a position is held in trailing mode, at most one order is wanted on the side
/// that reduces it.
pub proof fn law_one_reducing_order(
    state: KeelState,
    ctx: StrategyContext,
    mid: Decimal,
    i: int,
    j: int,
)
    requires
        state.config.mode is Trailing,
        ctx.position.size.0@ != 0,
        desired(state, ctx, mid) is Some,
        0 <= i < j < desired(state, ctx, mid)->0.len(),
    ensures
        desired(state, ctx, mid)->0[i].side == adding_side(ctx.position.size.0) || desired(
            state,
            ctx,
            mid,
        )->0[j].side == adding_side(ctx.position.size.0),
{
    let origin = match state.origin {
        Some(origin) => origin,
        None => mid,
    };
    if let Some(Some(frame)) = framed(state.config, ctx, origin, mid) {
        if let Some(middle) = middle_rung(frame) {
            let levels = state.config.levels as int;
            let orders = rungs(state, frame, ctx, middle - levels, (2 * levels + 1) as nat)->0;
            lemma_rungs(state, frame, ctx, middle - levels, (2 * levels + 1) as nat);
            assert(desired(state, ctx, mid)->0[i] == orders[i]);
        }
    }
}

proof fn lemma_placing_at_no_loss(
    config: KeelConfig,
    ctx: StrategyContext,
    open: Seq<(QuoteId, QuoteIntent)>,
    wanted: Seq<QuoteIntent>,
)
    requires
        forall|i: int|
            0 <= i < wanted.len() ==> reduces_at_no_loss(config, ctx, #[trigger] wanted[i]),
    ensures
        placing(open, wanted) matches Some(placed) ==> all_reduce_at_no_loss(
            config,
            ctx,
            placed.actions,
        ),
    decreases wanted.len(),
{
    if wanted.len() > 0 {
        let before = wanted.drop_last();
        assert(wanted.last() == wanted[wanted.len() - 1]);
        assert forall|i: int| 0 <= i < before.len() implies reduces_at_no_loss(
            config,
            ctx,
            #[trigger] before[i],
        ) by {
            assert(before[i] == wanted[i]);
        }
        lemma_placing_at_no_loss(config, ctx, open, before);
    }
}

proof fn lemma_reconciled_at_no_loss(
    config: KeelConfig,
    ctx: StrategyContext,
    wanted: Seq<QuoteIntent>,
    mid: Decimal,
)
    requires
        forall|i: int|
            0 <= i < wanted.len() ==> reduces_at_no_loss(config, ctx, #[trigger] wanted[i]),
    ensures
        reconciled(config, ctx, wanted, mid) matches Some(actions) ==> all_reduce_at_no_loss(
            config,
            ctx,
            actions,
        ),
{
    let open = ctx.open_quotes@;
    let pegged = pegged_side(config, ctx.position.size.0);
    lemma_placing_at_no_loss(config, ctx, open, wanted);
    if let Some(placed) = placing(open, wanted) {
        lemma_stale_are_cancels(open, placed.claimed, pegged, mid);
    }
}

/// Once the position is worth its cap, nothing more is added to it.
pub proof fn law_capped_position_is_not_deepened(
    state: KeelState,
    ctx: StrategyContext,
    mid: Decimal,
    value: Decimal,
    i: int,
)
    requires
        state.config.max_position_notional@ > 0,
        ctx.position.size.0@ != 0,
        product(absolute(ctx.position.size.0), mid) == Some(value),
        value@ >= state.config.max_position_notional@,
        desired(state, ctx, mid) is Some,
        0 <= i < desired(state, ctx, mid)->0.len(),
    ensures
        desired(state, ctx, mid)->0[i].side != adding_side(ctx.position.size.0),
{
    let origin = match state.origin {
        Some(origin) => origin,
        None => mid,
    };
    if let Some(Some(frame)) = framed(state.config, ctx, origin, mid) {
        if let Some(middle) = middle_rung(frame) {
            let levels = state.config.levels as int;
            let orders = rungs(state, frame, ctx, middle - levels, (2 * levels + 1) as nat)->0;
            lemma_rungs(state, frame, ctx, middle - levels, (2 * levels + 1) as nat);
            if i < orders.len() {
                assert(desired(state, ctx, mid)->0[i] == orders[i]);
            }
        }
    }
}

proof fn lemma_rungs_keep_to(
    state: KeelState,
    frame: Frame,
    ctx: StrategyContext,
    from: int,
    count: nat,
)
    ensures
        rungs(state, frame, ctx, from, count) matches Some(orders) ==> all_for(
            orders,
            *ctx.symbol,
        ),
    decreases count,
{
    if count > 0 {
        lemma_rungs_keep_to(state, frame, ctx, from, (count - 1) as nat);
    }
}

proof fn lemma_desired_keeps_to(state: KeelState, ctx: StrategyContext, mid: Decimal)
    ensures
        desired(state, ctx, mid) matches Some(orders) ==> all_for(orders, *ctx.symbol),
{
    let origin = match state.origin {
        Some(origin) => origin,
        None => mid,
    };
    if let Some(Some(frame)) = framed(state.config, ctx, origin, mid) {
        if let Some(middle) = middle_rung(frame) {
            let levels = state.config.levels as int;
            lemma_rungs_keep_to(state, frame, ctx, middle - levels, (2 * levels + 1) as nat);
        }
    }
}

proof fn lemma_placing_keeps_to(
    open: Seq<(QuoteId, QuoteIntent)>,
    wanted: Seq<QuoteIntent>,
    symbol: Symbol,
)
    requires
        all_for(wanted, symbol),
    ensures
        placing(open, wanted) matches Some(placed) ==> keeps_to(placed.actions, symbol),
    decreases wanted.len(),
{
    if wanted.len() > 0 {
        assert(wanted.last() == wanted[wanted.len() - 1]);
        assert forall|i: int| 0 <= i < wanted.drop_last().len() implies (
        #[trigger] wanted.drop_last()[i]).symbol == symbol by {
            assert(wanted.drop_last()[i] == wanted[i]);
        }
        lemma_placing_keeps_to(open, wanted.drop_last(), symbol);
    }
}

proof fn lemma_reconciled_keeps_to(
    config: KeelConfig,
    ctx: StrategyContext,
    wanted: Seq<QuoteIntent>,
    mid: Decimal,
)
    requires
        all_for(wanted, *ctx.symbol),
    ensures
        reconciled(config, ctx, wanted, mid) matches Some(actions) ==> keeps_to(
            actions,
            *ctx.symbol,
        ),
{
    let open = ctx.open_quotes@;
    let pegged = pegged_side(config, ctx.position.size.0);
    lemma_placing_keeps_to(open, wanted, *ctx.symbol);
    if let Some(placed) = placing(open, wanted) {
        lemma_stale_are_cancels(open, placed.claimed, pegged, mid);
        if let Some((stale, outskirts)) = unclaimed(open, placed.claimed, pegged, mid) {
            let n = surplus(
                (open.len() + placed.fresh) as int,
                config.max_open as int,
                outskirts.len() as int,
            );
            lemma_keeps_to_joined(placed.actions, stale, *ctx.symbol);
            lemma_keeps_to_joined(
                placed.actions + stale,
                cancels(sorted(outskirts), n),
                *ctx.symbol,
            );
        }
    }
}

proof fn lemma_maintained_keeps_to(state: KeelState, ctx: StrategyContext, mid: Decimal)
    ensures
        maintained(state, ctx, mid) matches Some((_, actions)) ==> keeps_to(actions, *ctx.symbol),
{
    let origin = match state.origin {
        Some(origin) => origin,
        None => mid,
    };
    let next = KeelState { last_reconcile_mid: Some(mid), origin: Some(origin), ..state };
    lemma_desired_keeps_to(next, ctx, mid);
    if let Some(wanted) = desired(next, ctx, mid) {
        lemma_reconciled_keeps_to(state.config, ctx, wanted, mid);
    }
}

/// No event and no rejection calls for an order in another instrument.
pub proof fn law_quotes_its_instrument(
    state: KeelState,
    ctx: StrategyContext,
    event: MarketEvent,
    intent: QuoteIntent,
    reason: Seq<char>,
)
    ensures
        Keel::event_step(state, ctx, event) matches Some((_, actions)) ==> keeps_to(
            actions,
            *ctx.symbol,
        ),
        Keel::rejection_step(state, ctx, intent, reason) matches Some((_, actions)) ==> keeps_to(
            actions,
            *ctx.symbol,
        ),
{
    if let Some(Some(mid)) = mid_strict(*ctx.latest_book) {
        if let Some(seen) = recorded(state, ctx.now.0, mid.0) {
            lemma_maintained_keeps_to(seen, ctx, mid.0);
        }
    }
}

/// The drawdown trigger fires exactly where the position loses at least `sar_trigger_bps` of
/// its average entry: for a long where the mid is that far below it, for a short where the mid
/// is that far above it. It never fires while the position is in profit at the mid.
pub proof fn law_drawdown_trigger_measures_the_loss(
    config: KeelConfig,
    pos: Decimal,
    avg: Decimal,
    mid: Decimal,
    lost: Decimal,
    ratio: Decimal,
    trigger: Decimal,
)
    requires
        avg@ > 0,
        pos@ > 0 ==> difference(avg, mid) == Some(lost) && lost@ == avg@ - mid@,
        pos@ < 0 ==> difference(mid, avg) == Some(lost) && lost@ == mid@ - avg@,
        quotient(lost, avg) == Some(ratio),
        ratio@ * avg@ == lost@ * pow10(28),
        quotient(config.sar_trigger_bps, whole(10_000)) == Some(trigger),
        trigger@ * 10_000 == config.sar_trigger_bps@,
        config.sar_trigger_bps@ > 0,
    ensures
        pos@ > 0 ==> stopped_out(config, pos, avg, mid) == Some(
            (avg@ - mid@) * 10_000 * pow10(28) >= config.sar_trigger_bps@ * avg@,
        ),
        pos@ < 0 ==> stopped_out(config, pos, avg, mid) == Some(
            (mid@ - avg@) * 10_000 * pow10(28) >= config.sar_trigger_bps@ * avg@,
        ),
        pos@ > 0 && mid@ >= avg@ ==> stopped_out(config, pos, avg, mid) == Some(false),
        pos@ < 0 && mid@ <= avg@ ==> stopped_out(config, pos, avg, mid) == Some(false),
{
    let (r, a, l, t, s, p) = (
        ratio@,
        avg@,
        lost@,
        trigger@,
        config.sar_trigger_bps@,
        pow10(28),
    );
    crate::decimal::lemma_pow10_positive(28);
    if pos@ != 0 {
        assert((r >= t) == (l * 10_000 * p >= s * a)) by (nonlinear_arith)
            requires
                r * a == l * p,
                t * 10_000 == s,
                a > 0,
        ;
        assert(l <= 0 ==> l * 10_000 * p <= 0 && s * a > 0) by (nonlinear_arith)
            requires
                s > 0,
                a > 0,
                p >= 1,
        ;
    }
}

/// The trend trigger fires only where the window's mids have run against the position, and by
/// at least the configured share of the way they went.
pub proof fn law_trend_runs_against_the_position(
    state: KeelState,
    pos: Decimal,
    net: Decimal,
    path: Decimal,
    ratio: Decimal,
)
    requires
        state.mid_history.len() > 0,
        difference(state.mid_history.last().1, state.mid_history[0].1) == Some(net),
        path_length(state.mid_history) == Some(path),
        quotient(absolute(net), path) == Some(ratio),
    ensures
        trend_against(state, pos) == Some(
            state.config.trend_window_secs > 0 && state.mid_history.len() >= 3 && path@ > 0
                && ratio@ >= state.config.trend_min_ratio@ && (pos@ > 0 ==> net@ < 0) && (pos@ <= 0
                ==> net@ > 0),
        ),
{
}

/// A flip is an immediate order of twice the position against it: a long is sold into the best
/// bid, a short bought back at the best ask.
pub proof fn law_flip_turns_the_position_over(state: KeelState, ctx: StrategyContext, twice: Decimal)
    requires
        product(absolute(ctx.position.size.0), whole(2)) == Some(twice),
        ctx.latest_book.bids@.len() > 0,
        ctx.latest_book.asks@.len() > 0,
    ensures
        flip_order(state, ctx) matches Some(actions) ==> {
            let order = actions[0]->Quote_0;
            &&& actions.len() == 1
            &&& actions[0] is Quote
            &&& order.tif is IOC
            &&& ctx.position.size.0@ > 0 ==> order.side is Ask && gridded(
                state.grid,
                *ctx.symbol,
                Side::Ask,
                ctx.latest_book.bids@[0].price.0,
                twice,
            ) == Some(QuoteIntent { tif: (gridded(
                state.grid,
                *ctx.symbol,
                Side::Ask,
                ctx.latest_book.bids@[0].price.0,
                twice,
            )->0).tif, ..order })
            &&& ctx.position.size.0@ <= 0 ==> order.side is Bid && gridded(
                state.grid,
                *ctx.symbol,
                Side::Bid,
                ctx.latest_book.asks@[0].price.0,
                twice,
            ) == Some(QuoteIntent { tif: (gridded(
                state.grid,
                *ctx.symbol,
                Side::Bid,
                ctx.latest_book.asks@[0].price.0,
                twice,
            )->0).tif, ..order })
        },
{
}

/// While a position is held the adding side has rungs below the cap, the reducing side only in
/// lattice mode; while flat both sides have them.
pub proof fn law_rungs_follow_the_position(config: KeelConfig, frame: Frame, ctx: StrategyContext)
    ensures
        ({
            let pos = ctx.position.size.0@;
            let bids = rungs_wanted(config, frame, ctx, Side::Bid);
            let asks = rungs_wanted(config, frame, ctx, Side::Ask);
            &&& pos == 0 ==> bids && asks
            &&& pos > 0 ==> bids == !frame.capped && asks == (config.mode is Lattice)
            &&& pos < 0 ==> asks == !frame.capped && bids == (config.mode is Lattice)
        }),
{
}

/// No rung is quoted where it would take: a bid at or above the best ask, or an ask at or below
/// the best bid. Nor is one inside the dead zone around the mid.
pub proof fn law_rungs_rest(
    state: KeelState,
    frame: Frame,
    ctx: StrategyContext,
    k: int,
    price: Decimal,
    low: Decimal,
    high: Decimal,
)
    requires
        plus(Some(frame.origin), product(whole(k), frame.step)) == Some(price),
        difference(frame.mid, frame.inner) == Some(low),
        sum(frame.mid, frame.inner) == Some(high),
    ensures
        rung(state, frame, ctx, k) matches Some(Some(order)) ==> {
            &&& price@ > 0
            &&& price@ < low@ || price@ > high@
            &&& price@ < low@ ==> order.side is Bid && (ctx.latest_book.asks@.len() > 0 ==> price@
                < ctx.latest_book.asks@[0].price.0@)
            &&& price@ >= low@ ==> order.side is Ask && (ctx.latest_book.bids@.len() > 0 ==> price@
                > ctx.latest_book.bids@[0].price.0@)
        },
{
}

/// A rung is worth the notional of an order, times one more ramp for every step that it lies
/// from the mid.
pub proof fn law_rungs_grow_with_depth(
    config: KeelConfig,
    frame: Frame,
    price: Decimal,
    away: Decimal,
    steps: Decimal,
    grown: Decimal,
    factor: Decimal,
    worth: Decimal,
    size: Decimal,
)
    requires
        difference(price, frame.mid) == Some(away),
        quotient(absolute(away), frame.step) == Some(steps),
        product(config.size_ramp, rounded(steps, 0)) == Some(grown),
        grown@ * pow10(28) == config.size_ramp@ * rounded(steps, 0)@,
        sum(whole(1), grown) == Some(factor),
        factor@ == pow10(28) + grown@,
        product(config.notional_per_order, factor) == Some(worth),
        worth@ * pow10(28) == config.notional_per_order@ * factor@,
        quotient(worth, price) == Some(size),
        size@ * price@ == worth@ * pow10(28),
    ensures
        rung_size(config, frame, price) is Some,
        rung_size(config, frame, price)->0@ * price@ == config.notional_per_order@ * (pow10(28)
            + grown@),
{
}

/// The order pegged to the average entry also stays outside the touch: it is the better of the
/// two prices for the position.
pub proof fn law_pegged_order_is_the_better_price(config: KeelConfig, ctx: StrategyContext)
    requires
        ctx.latest_book.bids@.len() > 0,
        ctx.latest_book.asks@.len() > 0,
        config.mode is Trailing,
    ensures
        reduce_price(config, ctx) matches Some(Some((side, price))) ==> {
            let avg = ctx.position.avg_entry.0;
            let up = times(Some(avg), plus(Some(whole(1)), fraction(config.reduce_bps)));
            let down = times(Some(avg), minus(Some(whole(1)), fraction(config.reduce_bps)));
            let (bid, ask) = (
                ctx.latest_book.bids@[0].price.0,
                ctx.latest_book.asks@[0].price.0,
            );
            &&& ctx.position.size.0@ > 0 ==> side is Ask && price@ >= ask@ && price@ >= up->0@ && (
            price == ask || Some(price) == up)
            &&& ctx.position.size.0@ < 0 ==> side is Bid && price@ <= bid@ && price@ <= down->0@ && (
            price == bid || Some(price) == down)
            &&& ctx.position.size.0@ != 0
        },
{
}

/// The lattice stands while nothing filled, something rests and the mid has moved by less than
/// a step.
pub proof fn law_lattice_stands_within_a_step(
    state: KeelState,
    ctx: StrategyContext,
    mid: Decimal,
    moved: Decimal,
    share: Decimal,
    step: Decimal,
)
    requires
        state.last_reconcile_mid is Some,
        difference(mid, state.last_reconcile_mid->0) == Some(moved),
        quotient(absolute(moved), mid) == Some(share),
        fraction(state.config.step_bps) == Some(step),
    ensures
        settled(state, ctx, mid) == Some(
            ctx.recent_fills@.len() == 0 && ctx.open_quotes@.len() > 0 && share@ < step@,
        ),
{
}

/// As many outskirts are trimmed as rest over the cap, or all of them where they are fewer.
pub proof fn law_trims_down_to_the_cap(resting: int, cap: int, outskirts: int)
    requires
        outskirts >= 0,
    ensures
        0 <= surplus(resting, cap, outskirts) <= outskirts,
        resting <= cap ==> surplus(resting, cap, outskirts) == 0,
        resting > cap ==> resting - surplus(resting, cap, outskirts) == cap || (surplus(
            resting,
            cap,
            outskirts,
        ) == outskirts && resting - outskirts > cap),
{
}

/// Below the dead zone around the mid a rung is a bid, above it an ask, inside it is left empty.
pub proof fn law_dead_zone_is_around_the_mid(frame: Frame, price: Decimal)
    requires
        exact_difference(frame.mid, frame.inner),
        exact_sum(frame.mid, frame.inner),
        frame.inner@ >= 0,
    ensures
        price@ < frame.mid@ - frame.inner@ ==> rung_side(frame, price) == Some(Some(Side::Bid)),
        price@ > frame.mid@ + frame.inner@ ==> rung_side(frame, price) == Some(Some(Side::Ask)),
        frame.mid@ - frame.inner@ <= price@ <= frame.mid@ + frame.inner@ ==> rung_side(frame, price)
            == Some(None::<Side>),
{
}

/// The lattice is spaced by `step_bps` of its anchor, with a dead zone of `inner_bps` of the mid
/// on either side, and the position is capped by its value at the mid.
pub proof fn law_frame_measures_the_lattice(
    config: KeelConfig,
    ctx: StrategyContext,
    origin: Decimal,
    mid: Decimal,
    step: Decimal,
    inner: Decimal,
    value: Decimal,
)
    requires
        times(Some(origin), quotient(config.step_bps, whole(10_000))) == Some(step),
        times(Some(mid), quotient(config.inner_bps, whole(10_000))) == Some(inner),
        product(absolute(ctx.position.size.0), mid) == Some(value),
    ensures
        step@ <= 0 ==> framed(config, ctx, origin, mid) == Some(None::<Frame>),
        step@ > 0 ==> framed(config, ctx, origin, mid) == Some(
            Some(
                Frame {
                    mid,
                    origin,
                    step,
                    inner,
                    capped: 0 < config.max_position_notional@ <= value@,
                },
            ),
        ),
{
}

/// A position is flipped where a trigger is on, no flip is recent, and the drawdown or the trend
/// goes against it.
pub proof fn law_flip_needs_a_trigger(
    state: KeelState,
    ctx: StrategyContext,
    mid: Decimal,
    stopped: bool,
    trending: bool,
    cool: bool,
)
    requires
        ctx.position.size.0@ != 0,
        ctx.position.avg_entry.0@ > 0,
        stopped_out(
            state.config,
            ctx.position.size.0,
            ctx.position.avg_entry.0,
            mid,
        ) == Some(stopped),
        trend_against(state, ctx.position.size.0) == Some(trending),
        cooling(state, ctx.now.0) == Some(!cool),
    ensures
        flip_due(state, ctx, mid) == Some(
            (state.config.sar_trigger_bps@ > 0 || state.config.trend_window_secs > 0) && cool && (
            stopped || trending),
        ),
{
}

/// A resting quote that stands for nothing is cancelled where only the pegged order may rest; any
/// other is left to be trimmed by its distance from the mid.
pub proof fn law_unclaimed_quotes_are_sorted_out(
    open: Seq<(QuoteId, QuoteIntent)>,
    claimed: Seq<QuoteId>,
    pegged: Option<Side>,
    mid: Decimal,
    j: int,
)
    requires
        0 <= j < open.len(),
        !claimed.contains(open[j].0),
    ensures
        unclaimed(open, claimed, pegged, mid) matches Some((cancels, outskirts)) ==> {
            &&& pegged == Some(open[j].1.side) ==> cancels.contains(Action::Cancel(open[j].0))
            &&& pegged != Some(open[j].1.side) ==> difference(open[j].1.price.0, mid) is Some
                && outskirts.contains(
                Outskirt {
                    id: open[j].0,
                    distance: absolute(difference(open[j].1.price.0, mid)->0),
                },
            )
        },
    decreases open.len(),
{
    let front = open.drop_last();
    if let Some((cancels, outskirts)) = unclaimed(open, claimed, pegged, mid) {
        let (before, nearer) = unclaimed(front, claimed, pegged, mid)->0;
        if j < front.len() {
            assert(front[j] == open[j]);
            law_unclaimed_quotes_are_sorted_out(front, claimed, pegged, mid, j);
            if pegged == Some(open[j].1.side) {
                let k = choose|k: int|
                    0 <= k < before.len() && before[k] == Action::Cancel(open[j].0);
                assert(cancels[k] == Action::Cancel(open[j].0));
            } else {
                let wanted = Outskirt {
                    id: open[j].0,
                    distance: absolute(difference(open[j].1.price.0, mid)->0),
                };
                let k = choose|k: int| 0 <= k < nearer.len() && nearer[k] == wanted;
                assert(outskirts[k] == wanted);
            }
        } else if pegged == Some(open[j].1.side) {
            assert(cancels.last() == Action::Cancel(open[j].0));
        } else {
            assert(outskirts.last().id == open[j].0);
        }
    }
}

/// In trailing mode only the pegged order may rest on the side that reduces the position.
pub proof fn law_pegged_side_reduces(config: KeelConfig, pos: Decimal)
    ensures
        config.mode is Lattice || pos@ == 0 ==> pegged_side(config, pos) is None,
        config.mode is Trailing && pos@ > 0 ==> pegged_side(config, pos) == Some(Side::Ask),
        config.mode is Trailing && pos@ < 0 ==> pegged_side(config, pos) == Some(Side::Bid),
{
}

/// The path of the mids grows by the distance from each to the next, whatever the direction.
pub proof fn law_path_adds_every_leg(
    history: Seq<(u64, Decimal)>,
    next: (u64, Decimal),
    leg: Decimal,
)
    requires
        history.len() > 0,
        difference(next.1, history.last().1) == Some(leg),
    ensures
        path_length(history.push(next)) == plus(path_length(history), Some(absolute(leg))),
        history.len() == 1 ==> path_length(history) == Some(whole(0)),
{
    let longer = history.push(next);
    assert(longer.drop_last() =~= history);
    assert(longer[longer.len() - 2] == history.last());
}

/// The band is laid around the rung nearest to the mid, counted in steps from the anchor.
pub proof fn law_band_is_centred_on_the_mid(
    frame: Frame,
    away: Decimal,
    steps: Decimal,
)
    requires
        difference(frame.mid, frame.origin) == Some(away),
        quotient(away, frame.step) == Some(steps),
        i64::MIN <= whole_part(rounded(steps, 0)) <= i64::MAX,
    ensures
        middle_rung(frame) == Some(whole_part(rounded(steps, 0))),
{
}

/// An order that rests already, at its price and on its side, is not placed again: at most its
/// size is corrected, and its quote counts as claimed.
pub proof fn law_resting_orders_are_claimed(
    open: Seq<(QuoteId, QuoteIntent)>,
    wanted: Seq<QuoteIntent>,
    order: QuoteIntent,
    id: QuoteId,
    resting: QuoteIntent,
    off: bool,
)
    requires
        resting_at(open, order.price, order.side) == Some((id, resting)),
        size_is_off(resting.size.0, order.size.0) == Some(off),
    ensures
        placing(open, wanted) matches Some(done) ==> (placing(open, wanted.push(order)) matches Some(
            more,
        ) && {
            &&& more.fresh == done.fresh
            &&& more.claimed == done.claimed.push(id)
            &&& off ==> more.actions == done.actions.push(Action::Requote { id, intent: order })
            &&& !off ==> more.actions == done.actions
        }),
        resting_at(open, order.price, order.side) is Some,
{
    assert(wanted.push(order).drop_last() =~= wanted);
}

/// The quote that stands for an order has its price and its side.
pub proof fn law_claimed_quotes_match(
    open: Seq<(QuoteId, QuoteIntent)>,
    price: Price,
    side: Side,
    j: int,
)
    ensures
        resting_at(open, price, side) matches Some(quote) ==> open.contains(quote)
            && quote.1.price == price && quote.1.side == side,
        0 <= j < open.len() && open[j].1.price == price && open[j].1.side == side ==> resting_at(
            open,
            price,
            side,
        ) is Some,
    decreases open.len(),
{
    if open.len() > 0 {
        let front = open.drop_last();
        law_claimed_quotes_match(front, price, side, j);
        if let Some(quote) = resting_at(front, price, side) {
            let i = choose|i: int| 0 <= i < front.len() && front[i] == quote;
            assert(open[i] == quote);
        }
        assert(open[open.len() - 1] == open.last());
    }
}

/// Where a position is pegged, the order for the whole of it is wanted at its price off the
/// market, behind the rungs.
pub proof fn law_pegged_order_is_for_the_whole_position(
    state: KeelState,
    ctx: StrategyContext,
    mid: Decimal,
    side: Side,
    price: Decimal,
    order: QuoteIntent,
)
    requires
        state.origin is Some,
        framed(state.config, ctx, state.origin->0, mid) matches Some(Some(_)),
        reduce_price(state.config, ctx) == Some(Some((side, price))),
        gridded_off_market(
            state.grid,
            *ctx.symbol,
            side,
            price,
            absolute(ctx.position.size.0),
        ) == Some(order),
    ensures
        desired(state, ctx, mid) matches Some(orders) ==> priced_at(orders, order.price),
{
    if let Some(orders) = desired(state, ctx, mid) {
        let frame = framed(state.config, ctx, state.origin->0, mid)->0->0;
        let rungs = band(state, frame, ctx)->0;
        if !priced_at(rungs, order.price) {
            assert(rungs.push(order).last().price == order.price);
            assert(orders[orders.len() - 1].price == order.price);
        }
    }
}

} // verus!
