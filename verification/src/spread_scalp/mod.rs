//! Spread scalping / liquidity provision.
//!
//! While the market spread exceeds a threshold, passive limit orders rest a
//! configurable number of ticks from the best bid and ask. Quotes are refreshed
//! on a fixed interval unless their targets stand still. Inventory doubles the
//! size of the reducing side, a position cap stops the other side, and
//! take-profit, stop-loss and an adverse-drift stop close the position at the
//! opposing touch.

pub mod adverse_tracker;
pub mod book_state;
pub mod policy;
pub mod resting_orders;

use crate::decimal::{
    absolute, difference, exact_difference, exact_product, exact_sum, lemma_pow10_positive,
    lemma_whole, minus, over, plus, pow10, product, sum, times, whole, Decimal,
};
use crate::market::{
    maker_order, opposite, taker_order, Fill, MarketEvent, Price, QuoteId, QuoteIntent, Side, Size,
    Snapshot, Symbol, Timestamp,
};
use crate::quoting::{
    capped_product, elapsed, fires_at, lemma_fires_at, lemma_reads_exactly, make_post_only_intent,
    measures_exactly, mentions, midpoint, reads_exactly, saturating_product, text_contains,
    try_bps_of, try_midpoint,
};
use crate::risk;
use crate::risk::{risk_decision, RiskConfig, RiskDecision};
use crate::scalping::{
    at_cap, cooling_off, do_targets_stand, has_interval_passed, interval_passed,
    inventory_multipliers, is_at_cap, is_cooling_off, is_within_cap, missing_size, multipliers,
    on_side, targets_stand, try_missing_size, within_cap,
};
use crate::sizing::{stepped, try_stepped};
use crate::strategy::{
    follows, keeps_to, lemma_keeps_to_joined, lemma_quotes_on_joined, quotes_on, Action, Strategy,
    StrategyContext,
};
use adverse_tracker::{
    after_snapshots, fresh, widening, with_fill, AdverseConfig, AdverseState, AdverseTracker,
};
use book_state::{
    raised_size, sized, top_mid, top_of, top_spread_bps, try_quote_size,
    try_size_at_least_min_notional, Top,
};
use policy::{carried_out, decision, dropped, DiffDecision};
use resting_orders::{in_flight, none_resting, quote_on, reconciled, with_side, RestingOrders};
use vstd::prelude::*;

verus! {

/// Configuration for [`SpreadScalp`].
#[derive(Clone, Copy, Debug)]
pub struct SpreadScalpConfig {
    /// Fiat notional per order.
    pub notional_per_order: Decimal,
    /// Venue tick size (price increment).
    pub tick_size: Decimal,
    /// Venue lot step size (quantity rounding).
    pub step_size: Decimal,
    /// Minimum order notional (price x size) required by the venue.
    pub min_notional: Decimal,
    /// Minimum market spread in bps required to quote.
    pub min_spread_bps: Decimal,
    /// Fixed requote interval in ms.
    pub requote_interval_ms: u64,
    /// Max position in quote currency before one-sided quoting kicks in. 0
    /// disables.
    pub max_position_usdt: Decimal,
    /// Unrealized profit in quote currency that closes the position while
    /// `take_profit_bps` is 0. 0 disables.
    pub take_profit_usdt: Decimal,
    /// Cooldown per side after a venue rejection, in ms. 0 disables.
    pub reject_cooldown_ms: u64,
    /// A resting quote within this many ticks of its target is left alone.
    pub price_tolerance_ticks: u32,
    /// Take-profit threshold in bps of position notional. 0 disables.
    pub take_profit_bps: u32,
    /// Stop-loss threshold in bps of position notional. 0 disables.
    pub stop_loss_bps: u32,
    /// Adverse-selection tracker settings.
    pub adverse: AdverseConfig,
    /// Keep quoting the closing side while the spread is too tight to enter.
    pub close_side_always_quotes: bool,
    /// Seconds held after which the closing target comes closer by
    /// `close_decay_factor_1`. 0 disables.
    pub close_decay_after_secs_1: u64,
    /// First closing-target multiplier.
    pub close_decay_factor_1: Decimal,
    /// Seconds held after which `close_decay_factor_2` applies instead. 0 disables.
    pub close_decay_after_secs_2: u64,
    /// Second closing-target multiplier.
    pub close_decay_factor_2: Decimal,
    /// Seconds held before the adverse-drift stop may fire. 0 disables.
    pub adverse_stop_after_secs: u64,
    /// Drift from the entry in bps that fires the adverse-drift stop. 0 disables.
    pub adverse_stop_drift_bps: u32,
    /// Ticks from the touch at which to quote: negative inside, zero at the touch,
    /// positive outside.
    pub quote_offset_ticks: i32,
    /// Closing target in ticks from the entry while `quote_offset_ticks >= 0`; 0
    /// means one more than the offset.
    pub close_target_ticks: u32,
    /// Quote the closing side at the touch even where that realizes a loss.
    pub strict_touch_quotes: bool,
}

/// Spread scalping strategy.
pub struct SpreadScalp {
    /// Settings.
    pub config: SpreadScalpConfig,
    /// Bid target of the last requote.
    pub last_bid: Option<Price>,
    /// Ask target of the last requote.
    pub last_ask: Option<Price>,
    /// Time of the last requote.
    pub last_requote_ts: Option<Timestamp>,
    /// Whether any quote is believed live.
    pub quotes_live: bool,
    /// Time of the last rejected bid.
    pub last_reject_bid_ts: Option<Timestamp>,
    /// Time of the last rejected ask.
    pub last_reject_ask_ts: Option<Timestamp>,
    /// Quotes believed resting.
    pub resting: RestingOrders,
    /// Adverse-selection tracker.
    pub adverse: AdverseTracker,
    /// When the current position was opened.
    pub cycle_start_ts: Option<Timestamp>,
    /// Signed position size at the previous event.
    pub prev_pos_size: Decimal,
}

/// Mathematical content of a [`SpreadScalp`].
pub struct ScalpState {
    /// Settings.
    pub config: SpreadScalpConfig,
    /// Bid target of the last requote.
    pub last_bid: Option<Price>,
    /// Ask target of the last requote.
    pub last_ask: Option<Price>,
    /// Time of the last requote.
    pub last_requote_ts: Option<Timestamp>,
    /// Whether any quote is believed live.
    pub quotes_live: bool,
    /// Time of the last rejected bid.
    pub last_reject_bid_ts: Option<Timestamp>,
    /// Time of the last rejected ask.
    pub last_reject_ask_ts: Option<Timestamp>,
    /// Quotes believed resting.
    pub resting: RestingOrders,
    /// Adverse-selection tracker.
    pub adverse: AdverseState,
    /// When the current position was opened.
    pub cycle_start_ts: Option<Timestamp>,
    /// Signed position size at the previous event.
    pub prev_pos_size: Decimal,
}

impl View for SpreadScalp {
    type V = ScalpState;

    open spec fn view(&self) -> ScalpState {
        ScalpState {
            config: self.config,
            last_bid: self.last_bid,
            last_ask: self.last_ask,
            last_requote_ts: self.last_requote_ts,
            quotes_live: self.quotes_live,
            last_reject_bid_ts: self.last_reject_bid_ts,
            last_reject_ask_ts: self.last_reject_ask_ts,
            resting: self.resting,
            adverse: self.adverse@,
            cycle_start_ts: self.cycle_start_ts,
            prev_pos_size: self.prev_pos_size,
        }
    }
}

/// The touches moved by the configured offset: outward where it is not negative,
/// inward where it is.
pub open spec fn offset_touches(config: SpreadScalpConfig, top: Top) -> Option<(Price, Price)> {
    let off = config.quote_offset_ticks;
    let (bid, ask) = if off >= 0 {
        let distance = product(whole(off as int), config.tick_size);
        (minus(Some(top.bid.0), distance), plus(Some(top.ask.0), distance))
    } else if off == i32::MIN {
        (None, None)
    } else {
        let distance = product(whole(-off), config.tick_size);
        (plus(Some(top.bid.0), distance), minus(Some(top.ask.0), distance))
    };
    match (bid, ask) {
        (Some(bid), Some(ask)) => Some((Price(bid), Price(ask))),
        _ => None,
    }
}

/// The two-sided targets on a book; the inner `None` is a book that is one-sided,
/// crossed, too tight, or on which the targets would cross.
pub open spec fn targets(state: ScalpState, snapshot: Snapshot) -> Option<Option<(Price, Price)>> {
    match top_of(snapshot) {
        None => Some(None),
        Some(top) => if state.config.tick_size@ <= 0 || top.ask.0@ <= top.bid.0@ {
            Some(None)
        } else {
            match top_spread_bps(top) {
                None => None,
                Some(None) => Some(None),
                Some(Some(spread_bps)) => match plus(
                    Some(state.config.min_spread_bps),
                    widening(state.adverse),
                ) {
                    None => None,
                    Some(effective_min) => if spread_bps@ < effective_min@ {
                        Some(None)
                    } else {
                        match offset_touches(state.config, top) {
                            None => None,
                            Some((bid, ask)) => if bid.0@ >= ask.0@ {
                                Some(None)
                            } else {
                                Some(Some((bid, ask)))
                            },
                        }
                    },
                },
            }
        },
    }
}

/// Size of an entry quote: the configured notional at this price, times the
/// multiplier, on the lot grid, and at least the minimum notional.
pub open spec fn entry_size(config: SpreadScalpConfig, price: Price, size_multiplier: Decimal) -> Option<
    Decimal,
> {
    match sized(config.notional_per_order, price, size_multiplier, config.step_size) {
        None => None,
        Some(raw) => raised_size(raw, price, config.min_notional, config.step_size),
    }
}

/// An entry quote.
pub open spec fn entry_order(
    config: SpreadScalpConfig,
    symbol: Symbol,
    side: Side,
    price: Price,
    size_multiplier: Decimal,
) -> Option<QuoteIntent> {
    match entry_size(config, price, size_multiplier) {
        None => None,
        Some(size) => Some(maker_order(symbol, side, price.0, size)),
    }
}

/// Brings one side to `intent` with as few actions as it takes.
pub open spec fn moved_to(state: ScalpState, intent: QuoteIntent) -> Option<
    (ScalpState, Seq<Action>),
> {
    match decision(
        quote_on(state.resting, intent.side),
        intent.price,
        intent.size,
        whole(state.config.price_tolerance_ticks as int),
        state.config.tick_size,
    ) {
        None => None,
        Some(verdict) => if verdict == DiffDecision::Unchanged {
            Some((state, Seq::empty()))
        } else {
            Some(
                (
                    ScalpState {
                        resting: with_side(state.resting, intent.side, Some(in_flight(intent))),
                        ..state
                    },
                    carried_out(verdict, intent),
                ),
            )
        },
    }
}

/// Brings an entry side to its target.
pub open spec fn entry_moved(
    state: ScalpState,
    symbol: Symbol,
    side: Side,
    price: Price,
    size_multiplier: Decimal,
) -> Option<(ScalpState, Seq<Action>)> {
    match entry_order(state.config, symbol, side, price, size_multiplier) {
        None => None,
        Some(intent) => moved_to(state, intent),
    }
}

/// Brings the closing side to its target at a given quantity; dust below the
/// minimum notional is left alone.
pub open spec fn close_moved(
    state: ScalpState,
    symbol: Symbol,
    side: Side,
    price: Price,
    qty: Decimal,
) -> Option<(ScalpState, Seq<Action>)> {
    let order = maker_order(symbol, side, price.0, qty);
    if state.config.min_notional@ > 0 {
        match product(qty, price.0) {
            None => None,
            Some(value) => if value@ < state.config.min_notional@ {
                Some((state, Seq::empty()))
            } else {
                moved_to(state, order)
            },
        }
    } else {
        moved_to(state, order)
    }
}

/// Cancels a side that is no longer wanted. A quote in flight stays on the books
/// until its id is known.
pub open spec fn side_dropped(state: ScalpState, side: Side) -> (ScalpState, Seq<Action>) {
    let actions = dropped(quote_on(state.resting, side));
    if actions.len() > 0 {
        (ScalpState { resting: with_side(state.resting, side, None), ..state }, actions)
    } else {
        (state, actions)
    }
}

/// Whether a side may not be quoted yet after a rejection.
pub open spec fn in_cooldown(state: ScalpState, side: Side, now: Timestamp) -> bool {
    cooling_off(
        on_side(side, state.last_reject_bid_ts, state.last_reject_ask_ts),
        now,
        state.config.reject_cooldown_ms,
    )
}

/// Whether a target moved and the interval has passed.
pub open spec fn requote_due(state: ScalpState, bid: Price, ask: Price, ts: Timestamp) -> bool {
    !targets_stand(state.last_bid, state.last_ask, bid, ask) && interval_passed(
        state.last_requote_ts,
        ts,
        state.config.requote_interval_ms,
    )
}

/// The closing target in ticks from the entry: as configured, or one more than the
/// offset of the quotes.
pub open spec fn close_ticks(config: SpreadScalpConfig) -> int {
    if config.close_target_ticks > 0 {
        config.close_target_ticks as int
    } else {
        config.quote_offset_ticks + 1
    }
}

/// The targets with the closing side held at or beyond its distance from the entry,
/// while quoting at or outside the touch.
pub open spec fn close_anchored(
    config: SpreadScalpConfig,
    position_size: Decimal,
    avg: Decimal,
    bid: Price,
    ask: Price,
) -> Option<(Price, Price)> {
    if config.strict_touch_quotes || config.quote_offset_ticks < 0 || position_size@ == 0 || avg@
        <= 0 {
        Some((bid, ask))
    } else {
        let distance = product(whole(close_ticks(config)), config.tick_size);
        if position_size@ > 0 {
            match plus(Some(avg), distance) {
                None => None,
                Some(target) => Some(
                    (
                        bid,
                        if target@ > ask.0@ {
                            Price(target)
                        } else {
                            ask
                        },
                    ),
                ),
            }
        } else {
            match minus(Some(avg), distance) {
                None => None,
                Some(target) => Some(
                    (
                        if target@ < bid.0@ {
                            Price(target)
                        } else {
                            bid
                        },
                        ask,
                    ),
                ),
            }
        }
    }
}

/// The side that reduces the position, if there is one.
pub open spec fn closing_side(position_size: Decimal) -> Option<Side> {
    if position_size@ > 0 {
        Some(Side::Ask)
    } else if position_size@ < 0 {
        Some(Side::Bid)
    } else {
        None
    }
}

/// Whether the position has reached its cap at the mid of the latest book.
pub open spec fn capped_at_book(config: SpreadScalpConfig, ctx: StrategyContext) -> Option<bool> {
    match top_of(*ctx.latest_book) {
        None => Some(false),
        Some(top) => match top_mid(top) {
            None => None,
            Some(mid) => at_cap(config.max_position_usdt, ctx.position.size.0, mid),
        },
    }
}

/// Whether the position has reached its cap, at the mid of the prices quoted around or at
/// that of the latest book.
pub open spec fn capped_around(config: SpreadScalpConfig, ctx: StrategyContext, mid: Decimal) -> Option<
    bool,
> {
    match (
        at_cap(config.max_position_usdt, ctx.position.size.0, mid),
        capped_at_book(config, ctx),
    ) {
        (Some(here), Some(there)) => Some(here || there),
        _ => None,
    }
}

/// Whether a side may be quoted: it does not grow a capped position and is not in
/// cooldown.
pub open spec fn wanted(
    state: ScalpState,
    position_size: Decimal,
    capped: bool,
    side: Side,
    ts: Timestamp,
) -> bool {
    within_cap(position_size, capped, side) && !in_cooldown(state, side, ts)
}

/// What a requote does to one side.
pub open spec fn side_requoted(
    state: ScalpState,
    ctx: StrategyContext,
    side: Side,
    price: Price,
    want: bool,
) -> Option<(ScalpState, Seq<Action>)> {
    let size = ctx.position.size.0;
    let (bid_mult, ask_mult) = multipliers(size);
    if !want {
        Some(side_dropped(state, side))
    } else if closing_side(size) == Some(side) {
        close_moved(state, *ctx.symbol, side, price, absolute(size))
    } else {
        entry_moved(state, *ctx.symbol, side, price, on_side(side, bid_mult, ask_mult))
    }
}

/// A requote of both sides around the given targets.
pub open spec fn requoted(
    state: ScalpState,
    ctx: StrategyContext,
    bid: Price,
    ask: Price,
    ts: Timestamp,
) -> Option<(ScalpState, Seq<Action>)> {
    let size = ctx.position.size.0;
    match close_anchored(state.config, size, ctx.position.avg_entry.0, bid, ask) {
        None => None,
        Some((bid, ask)) => {
            let marked = ScalpState {
                last_bid: Some(bid),
                last_ask: Some(ask),
                last_requote_ts: Some(ts),
                quotes_live: true,
                ..state
            };
            match midpoint(bid.0, ask.0) {
                None => None,
                Some(mid) => match capped_around(marked.config, ctx, mid) {
                    None => None,
                    Some(capped) => match side_requoted(
                        marked,
                        ctx,
                        Side::Bid,
                        bid,
                        wanted(marked, size, capped, Side::Bid, ts),
                    ) {
                        None => None,
                        Some((after_bid, bid_actions)) => match side_requoted(
                            after_bid,
                            ctx,
                            Side::Ask,
                            ask,
                            wanted(marked, size, capped, Side::Ask, ts),
                        ) {
                            None => None,
                            Some((done, ask_actions)) => {
                                let actions = bid_actions + ask_actions;
                                Some(
                                    (
                                        done,
                                        if actions.len() == 0 {
                                            seq![Action::NoOp]
                                        } else {
                                            actions
                                        },
                                    ),
                                )
                            },
                        },
                    },
                },
            }
        },
    }
}

/// Forgetting the targets, and cancelling everything that is live.
pub open spec fn withdrawn(state: ScalpState) -> (ScalpState, Seq<Action>) {
    let cleared = ScalpState { last_bid: None, last_ask: None, last_requote_ts: None, ..state };
    if state.quotes_live {
        (
            ScalpState { quotes_live: false, resting: none_resting(), ..cleared },
            seq![Action::CancelAll],
        )
    } else {
        (cleared, Seq::empty())
    }
}

/// How much closer the closing target has come with the time held.
pub open spec fn decay_factor(state: ScalpState, ts: Timestamp) -> Decimal {
    match state.cycle_start_ts {
        None => whole(1),
        Some(cycle_ts) => {
            let held = elapsed(ts.0, cycle_ts.0);
            let c = state.config;
            if c.close_decay_after_secs_2 > 0 && held >= capped_product(
                c.close_decay_after_secs_2 as int,
                1_000_000_000,
            ) && c.close_decay_factor_2@ > 0 {
                c.close_decay_factor_2
            } else if c.close_decay_after_secs_1 > 0 && held >= capped_product(
                c.close_decay_after_secs_1 as int,
                1_000_000_000,
            ) && c.close_decay_factor_1@ > 0 {
                c.close_decay_factor_1
            } else {
                whole(1)
            }
        },
    }
}

/// The price at which to hold out for the exit: the entry plus the spread aimed
/// at, or a tick inside the touch where the market is already past that.
pub open spec fn exit_price(
    state: ScalpState,
    close_side: Side,
    entry: Decimal,
    top: Top,
    ts: Timestamp,
) -> Option<Price> {
    let bp = over(
        product(state.config.min_spread_bps, decay_factor(state, ts)),
        Some(whole(10_000)),
    );
    let tick = Some(state.config.tick_size);
    match close_side {
        Side::Ask => match (
            times(Some(entry), plus(Some(whole(1)), bp)),
            minus(Some(top.ask.0), tick),
        ) {
            (Some(target), Some(touch)) => Some(
                Price(
                    if touch@ > target@ {
                        touch
                    } else {
                        target
                    },
                ),
            ),
            _ => None,
        },
        Side::Bid => match (
            times(Some(entry), minus(Some(whole(1)), bp)),
            plus(Some(top.bid.0), tick),
        ) {
            (Some(target), Some(touch)) => Some(
                Price(
                    if touch@ < target@ {
                        touch
                    } else {
                        target
                    },
                ),
            ),
            _ => None,
        },
    }
}

/// Whether an order on `side` at `price` would take liquidity.
pub open spec fn crosses(side: Side, price: Price, top: Top) -> bool {
    match side {
        Side::Ask => price.0@ <= top.bid.0@,
        Side::Bid => price.0@ >= top.ask.0@,
    }
}

/// Quoting only the closing side while the spread is too tight to enter; the inner
/// `None` is where that does not apply.
pub open spec fn close_side_kept(
    state: ScalpState,
    ctx: StrategyContext,
    snapshot: Snapshot,
    ts: Timestamp,
) -> Option<Option<(ScalpState, Seq<Action>)>> {
    let entry = ctx.position.avg_entry.0;
    match (closing_side(ctx.position.size.0), top_of(snapshot)) {
        (Some(close_side), Some(top)) => if !state.config.close_side_always_quotes || entry@ <= 0 {
            Some(None)
        } else {
            match exit_price(state, close_side, entry, top, ts) {
                None => None,
                Some(price) => if crosses(close_side, price, top) {
                    Some(Some((state, Seq::empty())))
                } else {
                    let (without, cancels) = side_dropped(state, opposite(close_side));
                    let lone = match close_side {
                        Side::Ask => ScalpState { last_bid: None, ..without },
                        Side::Bid => ScalpState { last_ask: None, ..without },
                    };
                    match entry_moved(lone, *ctx.symbol, close_side, price, whole(1)) {
                        None => None,
                        Some((moved, actions)) => {
                            let live = quote_on(moved.resting, close_side) is Some;
                            let stamped = ScalpState {
                                last_requote_ts: Some(ts),
                                quotes_live: live,
                                ..moved
                            };
                            Some(
                                Some(
                                    (
                                        match close_side {
                                            Side::Ask => ScalpState {
                                                last_ask: Some(price),
                                                ..stamped
                                            },
                                            Side::Bid => ScalpState {
                                                last_bid: Some(price),
                                                ..stamped
                                            },
                                        },
                                        cancels + actions,
                                    ),
                                ),
                            )
                        },
                    }
                },
            }
        },
        _ => Some(None),
    }
}

/// What happens where there are no two-sided targets.
pub open spec fn without_targets(
    state: ScalpState,
    ctx: StrategyContext,
    snapshot: Snapshot,
    ts: Timestamp,
) -> Option<(ScalpState, Seq<Action>)> {
    match close_side_kept(state, ctx, snapshot, ts) {
        None => None,
        Some(Some(step)) => Some(step),
        Some(None) => Some(withdrawn(state)),
    }
}

/// The state once the event's facts are taken in: open quotes, due looks at the
/// mid, a fill, and the start or end of a position.
pub open spec fn informed(state: ScalpState, ctx: StrategyContext, event: MarketEvent) -> Option<
    ScalpState,
> {
    let looked = match top_of(*ctx.latest_book) {
        None => Some(state.adverse),
        Some(top) => match top_mid(top) {
            None => None,
            Some(mid) => after_snapshots(state.adverse, ctx.now, Price(mid)),
        },
    };
    match looked {
        None => None,
        Some(adverse) => {
            let size = ctx.position.size.0;
            Some(
                ScalpState {
                    resting: reconciled(state.resting, ctx.open_quotes@),
                    adverse: match event {
                        MarketEvent::Fill(fill) => with_fill(
                            adverse,
                            fill.ts,
                            fill.side,
                            fill.price,
                        ),
                        _ => adverse,
                    },
                    cycle_start_ts: if state.prev_pos_size@ == 0 && size@ != 0 {
                        Some(ctx.now)
                    } else if state.prev_pos_size@ != 0 && size@ == 0 {
                        None
                    } else {
                        state.cycle_start_ts
                    },
                    prev_pos_size: size,
                    ..state
                },
            )
        },
    }
}

/// Whether the adverse-drift stop is armed, and on which top of book.
pub open spec fn stop_armed(state: ScalpState, ctx: StrategyContext) -> Option<Top> {
    if state.config.adverse_stop_drift_bps > 0 && state.config.adverse_stop_after_secs > 0
        && ctx.position.size.0@ != 0 && state.cycle_start_ts is Some && elapsed(
        ctx.now.0,
        (state.cycle_start_ts->0).0,
    ) >= capped_product(state.config.adverse_stop_after_secs as int, 1_000_000_000) {
        top_of(*ctx.latest_book)
    } else {
        None
    }
}

/// Drift of the mid against a position, in bps of its entry.
pub open spec fn adverse_drift_bps(position_size: Decimal, avg: Decimal, mid: Decimal) -> Option<
    Decimal,
> {
    let against = if position_size@ > 0 {
        difference(avg, mid)
    } else {
        difference(mid, avg)
    };
    times(over(against, Some(avg)), Some(whole(10_000)))
}

/// The adverse-drift stop; the inner `None` is where it does not fire.
pub open spec fn adverse_stop(state: ScalpState, ctx: StrategyContext) -> Option<
    Option<(ScalpState, Seq<Action>)>,
> {
    let size = ctx.position.size.0;
    let avg = ctx.position.avg_entry.0;
    match stop_armed(state, ctx) {
        None => Some(None),
        Some(top) => match top_mid(top) {
            None => None,
            Some(mid) => if avg@ <= 0 {
                Some(None)
            } else {
                match adverse_drift_bps(size, avg, mid) {
                    None => None,
                    Some(drift_bps) => if drift_bps@ < whole(
                        state.config.adverse_stop_drift_bps as int,
                    )@ {
                        Some(None)
                    } else {
                        match stepped(Some(absolute(size)), state.config.step_size) {
                            None => None,
                            Some(qty) => if qty@ <= 0 {
                                Some(None)
                            } else {
                                let side = risk::reducing_side(size);
                                let cleared = ScalpState { cycle_start_ts: None, ..state };
                                let (no_bid, bid_cancel) = side_dropped(cleared, Side::Bid);
                                let (no_ask, ask_cancel) = side_dropped(no_bid, Side::Ask);
                                let close = Action::Quote(
                                    taker_order(
                                        *ctx.symbol,
                                        side,
                                        risk::opposing_touch(side, top.bid, top.ask).0,
                                        qty,
                                    ),
                                );
                                Some(Some((no_ask, (bid_cancel + ask_cancel).push(close))))
                            },
                        }
                    },
                }
            },
        },
    }
}

/// What the risk policy is configured with.
pub open spec fn risk_settings(config: SpreadScalpConfig) -> RiskConfig {
    RiskConfig {
        take_profit_bps: config.take_profit_bps,
        stop_loss_bps: config.stop_loss_bps,
        take_profit_usdt_legacy: config.take_profit_usdt,
    }
}

/// Where the risk gate leaves an event.
pub enum Gated {
    /// The position is being closed; these are the actions.
    Closing(ScalpState, Seq<Action>),
    /// The event goes on, after these cancels of a capped side.
    Passed(ScalpState, Seq<Action>),
}

/// The risk gate: take-profit and stop-loss close the position; otherwise the side
/// that would grow a capped position is cancelled.
pub open spec fn risk_gate(state: ScalpState, ctx: StrategyContext) -> Option<Gated> {
    let size = ctx.position.size.0;
    match top_of(*ctx.latest_book) {
        None => Some(Gated::Passed(state, Seq::empty())),
        Some(top) => match top_mid(top) {
            None => None,
            Some(mid) => match risk_decision(
                *ctx.position,
                Price(mid),
                risk_settings(state.config),
            ) {
                None => None,
                Some(RiskDecision::Close { side, qty, .. }) => Some(
                    Gated::Closing(
                        ScalpState {
                            resting: none_resting(),
                            quotes_live: false,
                            last_bid: None,
                            last_ask: None,
                            ..state
                        },
                        seq![
                            Action::CancelAll,
                            Action::Quote(
                                taker_order(
                                    *ctx.symbol,
                                    side,
                                    risk::opposing_touch(side, top.bid, top.ask).0,
                                    qty.0,
                                ),
                            ),
                        ],
                    ),
                ),
                Some(RiskDecision::Hold) => match at_cap(state.config.max_position_usdt, size, mid) {
                    None => None,
                    Some(capped) => if capped && size@ > 0 {
                        let (next, cancels) = side_dropped(state, Side::Bid);
                        Some(Gated::Passed(next, cancels))
                    } else if capped && size@ < 0 {
                        let (next, cancels) = side_dropped(state, Side::Ask);
                        Some(Gated::Passed(next, cancels))
                    } else {
                        Some(Gated::Passed(state, Seq::empty()))
                    },
                },
            },
        },
    }
}

/// The fresh quote on the filled side, where the side is allowed.
pub open spec fn filled_side_replaced(
    state: ScalpState,
    ctx: StrategyContext,
    side: Side,
    price: Price,
    allowed: bool,
) -> Option<(ScalpState, Seq<Action>)> {
    let (bid_mult, ask_mult) = multipliers(ctx.position.size.0);
    if !allowed {
        Some((state, Seq::empty()))
    } else {
        match entry_order(
            state.config,
            *ctx.symbol,
            side,
            price,
            on_side(side, bid_mult, ask_mult),
        ) {
            None => None,
            Some(intent) => Some(
                (
                    ScalpState {
                        resting: with_side(state.resting, side, Some(in_flight(intent))),
                        ..state
                    },
                    seq![Action::Quote(intent)],
                ),
            ),
        }
    }
}

/// The top-up of the side opposite a fill, from what is open there to its full
/// size, where the side is allowed.
pub open spec fn other_side_topped_up(
    state: ScalpState,
    ctx: StrategyContext,
    side: Side,
    price: Price,
    allowed: bool,
) -> Option<(ScalpState, Seq<Action>)> {
    let (bid_mult, ask_mult) = multipliers(ctx.position.size.0);
    let c = state.config;
    if !allowed {
        Some((state, Seq::empty()))
    } else {
        match missing_size(
            ctx.open_quotes@,
            side,
            c.notional_per_order,
            price,
            on_side(side, bid_mult, ask_mult),
            c.step_size,
        ) {
            None => None,
            Some(None) => Some((state, Seq::empty())),
            Some(Some(extra)) => {
                let intent = maker_order(*ctx.symbol, side, price.0, extra);
                Some(
                    (
                        ScalpState {
                            resting: with_side(state.resting, side, Some(in_flight(intent))),
                            ..state
                        },
                        seq![Action::Quote(intent)],
                    ),
                )
            },
        }
    }
}

/// What a fill does once the risk gate has passed.
pub open spec fn fill_step(
    state: ScalpState,
    ctx: StrategyContext,
    fill: Fill,
    cancels: Seq<Action>,
) -> Option<(ScalpState, Seq<Action>)> {
    let size = ctx.position.size.0;
    let ts = ctx.now;
    let forgiven = match fill.side {
        Side::Bid => ScalpState { last_reject_bid_ts: None, ..state },
        Side::Ask => ScalpState { last_reject_ask_ts: None, ..state },
    };
    let cleared = ScalpState { resting: with_side(state.resting, fill.side, None), ..forgiven };
    match targets(cleared, *ctx.latest_book) {
        None => None,
        Some(None) => match without_targets(cleared, ctx, *ctx.latest_book, ts) {
            None => None,
            Some((next, actions)) => Some((next, cancels + actions)),
        },
        Some(Some((bid, ask))) => {
            let marked = ScalpState {
                last_bid: Some(bid),
                last_ask: Some(ask),
                last_requote_ts: Some(ts),
                quotes_live: true,
                ..cleared
            };
            match midpoint(bid.0, ask.0) {
                None => None,
                Some(mid) => match capped_around(marked.config, ctx, mid) {
                    None => None,
                    Some(capped) => match filled_side_replaced(
                        marked,
                        ctx,
                        fill.side,
                        on_side(fill.side, bid, ask),
                        wanted(marked, size, capped, fill.side, ts),
                    ) {
                        None => None,
                        Some((replaced, first)) => match other_side_topped_up(
                            replaced,
                            ctx,
                            opposite(fill.side),
                            on_side(opposite(fill.side), bid, ask),
                            wanted(marked, size, capped, opposite(fill.side), ts),
                        ) {
                            None => None,
                            Some((done, second)) => Some((done, cancels + (first + second))),
                        },
                    },
                },
            }
        },
    }
}

/// What a book update or heartbeat does once the risk gate has passed.
pub open spec fn book_step(
    state: ScalpState,
    ctx: StrategyContext,
    snapshot: Snapshot,
    ts: Timestamp,
    cancels: Seq<Action>,
) -> Option<(ScalpState, Seq<Action>)> {
    match targets(state, snapshot) {
        None => None,
        Some(None) => match without_targets(state, ctx, snapshot, ts) {
            None => None,
            Some((next, actions)) => Some((next, cancels + actions)),
        },
        Some(Some((bid, ask))) => if !requote_due(state, bid, ask, ts) {
            Some(
                (
                    state,
                    if cancels.len() == 0 {
                        seq![Action::NoOp]
                    } else {
                        cancels
                    },
                ),
            )
        } else {
            match requoted(state, ctx, bid, ask, ts) {
                None => None,
                Some((next, actions)) => Some((next, cancels + actions)),
            }
        },
    }
}

/// What any event does once the risk gate has passed.
pub open spec fn passed_step(
    state: ScalpState,
    ctx: StrategyContext,
    event: MarketEvent,
    cancels: Seq<Action>,
) -> Option<(ScalpState, Seq<Action>)> {
    match event {
        MarketEvent::BookUpdate { snapshot } => book_step(
            state,
            ctx,
            snapshot,
            snapshot.ts,
            cancels,
        ),
        MarketEvent::Heartbeat { ts } => book_step(state, ctx, *ctx.latest_book, ts, cancels),
        MarketEvent::Trade { .. } => Some((state, cancels)),
        MarketEvent::Fill(fill) => fill_step(state, ctx, fill, cancels),
    }
}

impl SpreadScalp {
    fn compute_targets(&self, snapshot: &Snapshot) -> (result: Option<Option<(Price, Price)>>)
        ensures
            result == targets(self@, *snapshot),
            result matches Some(Some((bid, ask))) ==> {
                let (best_bid, best_ask) = (snapshot.bids@[0].price.0, snapshot.asks@[0].price.0);
                let off = self.config.quote_offset_ticks;
                let tick = self.config.tick_size;
                &&& best_bid@ < best_ask@ && bid.0@ < ask.0@
                &&& off >= 0 && best_bid@ >= 0 ==> bid.0@ <= best_bid@ && ask.0@ >= best_ask@
                &&& off < 0 && best_bid@ >= 0 ==> bid.0@ >= best_bid@ && ask.0@ <= best_ask@
                &&& off >= 0 && exact_product(whole(off as int), tick) && exact_difference(
                    best_bid,
                    product(whole(off as int), tick)->0,
                ) && exact_sum(best_ask, product(whole(off as int), tick)->0) ==> bid.0@
                    == best_bid@ - off * tick@ && ask.0@ == best_ask@ + off * tick@
            },
    {
        let top = match Top::from_snapshot(snapshot) {
            Some(top) => top,
            None => {
                return Some(None);
            },
        };
        let tick = self.config.tick_size;
        if !tick.is_positive() || top.ask.0.is_at_most(top.bid.0) {
            return Some(None);
        }
        let spread_bps = match top.try_spread_bps()? {
            Some(bps) => bps,
            None => {
                return Some(None);
            },
        };
        let effective_min = self.config.min_spread_bps.checked_add(
            self.adverse.try_current_widen_bps()?,
        )?;
        if spread_bps.is_less(effective_min) {
            return Some(None);
        }
        let off: i32 = self.config.quote_offset_ticks;
        let (bid, ask) = if off >= 0 {
            let distance = Decimal::whole(off as i64).checked_mul(tick)?;
            proof {
                lemma_whole(off as int);
                lemma_pow10_positive(28);
                let (n, p, d, t) = (off as int, pow10(28), distance@, tick@);
                assert(n * p >= 0) by (nonlinear_arith)
                    requires
                        n >= 0,
                        p >= 1,
                ;
                assert(d * p == (n * p) * t ==> d == n * t) by (nonlinear_arith)
                    requires
                        p >= 1,
                ;
            }
            (top.bid.0.checked_sub(distance)?, top.ask.0.checked_add(distance)?)
        } else if off == i32::MIN {
            return None;
        } else {
            let distance = Decimal::whole((-off) as i64).checked_mul(tick)?;
            proof {
                lemma_whole(-off);
                lemma_pow10_positive(28);
                let (n, p) = (-off, pow10(28));
                assert(n * p >= 0) by (nonlinear_arith)
                    requires
                        n >= 0,
                        p >= 1,
                ;
            }
            (top.bid.0.checked_add(distance)?, top.ask.0.checked_sub(distance)?)
        };
        if bid.is_at_least(ask) {
            return Some(None);
        }
        Some(Some((Price(bid), Price(ask))))
    }

    fn make_quote(
        &self,
        ctx: &StrategyContext<'_>,
        side: Side,
        price: Price,
        size_multiplier: Decimal,
    ) -> (result: Option<QuoteIntent>)
        ensures
            result == entry_order(self.config, *ctx.symbol, side, price, size_multiplier),
    {
        let raw = try_quote_size(
            self.config.notional_per_order,
            price,
            size_multiplier,
            self.config.step_size,
        )?;
        let size = try_size_at_least_min_notional(
            raw,
            price,
            self.config.min_notional,
            self.config.step_size,
        )?;
        Some(make_post_only_intent(ctx.symbol, side, price, Size(size)))
    }

    fn move_to(&mut self, intent: QuoteIntent) -> (result: Option<Vec<Action>>)
        ensures
            follows(moved_to(old(self)@, intent), result, final(self)@),
    {
        let verdict = policy::try_diff(
            self.resting.current_for(intent.side),
            intent.price,
            intent.size,
            Decimal::whole(self.config.price_tolerance_ticks as i64),
            self.config.tick_size,
        )?;
        if verdict == DiffDecision::Unchanged {
            return Some(Vec::new());
        }
        self.resting.record_place(&intent);
        Some(policy::apply(verdict, intent))
    }

    fn diff_emit(
        &mut self,
        ctx: &StrategyContext<'_>,
        side: Side,
        price: Price,
        size_multiplier: Decimal,
    ) -> (result: Option<Vec<Action>>)
        ensures
            follows(
                entry_moved(old(self)@, *ctx.symbol, side, price, size_multiplier),
                result,
                final(self)@,
            ),
    {
        let intent = self.make_quote(ctx, side, price, size_multiplier)?;
        self.move_to(intent)
    }

    fn diff_emit_close(
        &mut self,
        ctx: &StrategyContext<'_>,
        side: Side,
        price: Price,
        qty: Decimal,
    ) -> (result: Option<Vec<Action>>)
        ensures
            follows(
                close_moved(old(self)@, *ctx.symbol, side, price, qty),
                result,
                final(self)@,
            ),
    {
        if self.config.min_notional.is_positive() {
            let value = qty.checked_mul(price.0)?;
            if value.is_less(self.config.min_notional) {
                return Some(Vec::new());
            }
        }
        self.move_to(make_post_only_intent(ctx.symbol, side, price, Size(qty)))
    }

    fn drop_tracked_side(&mut self, side: Side) -> (result: Vec<Action>)
        ensures
            (final(self)@, result@) == side_dropped(old(self)@, side),
    {
        let actions = policy::drop_side(self.resting.current_for(side));
        if actions.len() > 0 {
            self.resting.drop_side(side);
        }
        actions
    }

    fn side_in_cooldown(&self, side: Side, now: Timestamp) -> (result: bool)
        ensures
            result == in_cooldown(self@, side, now),
    {
        let last = match side {
            Side::Bid => self.last_reject_bid_ts,
            Side::Ask => self.last_reject_ask_ts,
        };
        is_cooling_off(last, now, self.config.reject_cooldown_ms)
    }

    fn should_requote(&self, bid: Price, ask: Price, ts: Timestamp) -> (result: bool)
        ensures
            result == requote_due(self@, bid, ask, ts),
    {
        !do_targets_stand(self.last_bid, self.last_ask, bid, ask) && has_interval_passed(
            self.last_requote_ts,
            ts,
            self.config.requote_interval_ms,
        )
    }

    fn apply_tick_mode_close_target(&self, ctx: &StrategyContext<'_>, bid: Price, ask: Price)
        -> (result: Option<(Price, Price)>)
        ensures
            result == close_anchored(
                self.config,
                ctx.position.size.0,
                ctx.position.avg_entry.0,
                bid,
                ask,
            ),
    {
        let pos_size = ctx.position.size.0;
        let avg = ctx.position.avg_entry.0;
        if self.config.strict_touch_quotes || self.config.quote_offset_ticks < 0 || pos_size.is_zero() || !avg.is_positive() {
            return Some((bid, ask));
        }
        let wanted_ticks: u32 = self.config.close_target_ticks;
        let n_ticks: i64 = if wanted_ticks > 0 {
            wanted_ticks as i64
        } else {
            self.config.quote_offset_ticks as i64 + 1
        };
        let target_distance = Decimal::whole(n_ticks).checked_mul(self.config.tick_size)?;
        if pos_size.is_positive() {
            let target = avg.checked_add(target_distance)?;
            if target.is_more(ask.0) {
                Some((bid, Price(target)))
            } else {
                Some((bid, ask))
            }
        } else {
            let target = avg.checked_sub(target_distance)?;
            if target.is_less(bid.0) {
                Some((Price(target), ask))
            } else {
                Some((bid, ask))
            }
        }
    }

    fn close_side_for(position_size: Decimal) -> (result: Option<Side>)
        ensures
            result == closing_side(position_size),
    {
        if position_size.is_positive() {
            Some(Side::Ask)
        } else if position_size.is_negative() {
            Some(Side::Bid)
        } else {
            None
        }
    }

    fn wants(&self, position_size: Decimal, capped: bool, side: Side, ts: Timestamp) -> (result:
        bool)
        ensures
            result == wanted(self@, position_size, capped, side, ts),
    {
        is_within_cap(position_size, capped, side) && !self.side_in_cooldown(side, ts)
    }

    fn requote_side(
        &mut self,
        ctx: &StrategyContext<'_>,
        side: Side,
        price: Price,
        want: bool,
    ) -> (result: Option<Vec<Action>>)
        ensures
            follows(side_requoted(old(self)@, *ctx, side, price, want), result, final(self)@),
    {
        if !want {
            return Some(self.drop_tracked_side(side));
        }
        let size = ctx.position.size.0;
        let closing = match (Self::close_side_for(size), side) {
            (Some(Side::Bid), Side::Bid) => true,
            (Some(Side::Ask), Side::Ask) => true,
            _ => false,
        };
        if closing {
            self.diff_emit_close(ctx, side, price, size.abs())
        } else {
            let (bid_mult, ask_mult) = inventory_multipliers(ctx.position.size.0);
            let mult = match side {
                Side::Bid => bid_mult,
                Side::Ask => ask_mult,
            };
            self.diff_emit(ctx, side, price, mult)
        }
    }

    fn is_capped_around(&self, ctx: &StrategyContext<'_>, mid: Decimal) -> (result: Option<bool>)
        ensures
            result == capped_around(self.config, *ctx, mid),
    {
        let cap = self.config.max_position_usdt;
        let size = ctx.position.size.0;
        let here = is_at_cap(cap, size, mid)?;
        let there = match Top::from_snapshot(ctx.latest_book) {
            Some(top) => is_at_cap(cap, size, top.try_mid()?.0)?,
            None => false,
        };
        Some(here || there)
    }

    fn emit_requote(
        &mut self,
        ctx: &StrategyContext<'_>,
        bid: Price,
        ask: Price,
        ts: Timestamp,
    ) -> (result: Option<Vec<Action>>)
        ensures
            follows(requoted(old(self)@, *ctx, bid, ask, ts), result, final(self)@),
    {
        let (bid, ask) = self.apply_tick_mode_close_target(ctx, bid, ask)?;
        self.last_bid = Some(bid);
        self.last_ask = Some(ask);
        self.last_requote_ts = Some(ts);
        self.quotes_live = true;
        let mid = try_midpoint(bid.0, ask.0)?;
        let size = ctx.position.size.0;
        let capped = self.is_capped_around(ctx, mid)?;
        let want_bid = self.wants(size, capped, Side::Bid, ts);
        let want_ask = self.wants(size, capped, Side::Ask, ts);
        let mut actions = self.requote_side(ctx, Side::Bid, bid, want_bid)?;
        let mut ask_actions = self.requote_side(ctx, Side::Ask, ask, want_ask)?;
        actions.append(&mut ask_actions);
        if actions.len() == 0 {
            actions.push(Action::NoOp);
        }
        Some(actions)
    }

    fn cancel_if_live(&mut self) -> (result: Vec<Action>)
        ensures
            (final(self)@, result@) == withdrawn(old(self)@),
    {
        self.last_bid = None;
        self.last_ask = None;
        self.last_requote_ts = None;
        if self.quotes_live {
            self.quotes_live = false;
            self.resting.drop_all();
            vec![Action::CancelAll]
        } else {
            Vec::new()
        }
    }

    fn close_decay(&self, ts: Timestamp) -> (result: Decimal)
        ensures
            result == decay_factor(self@, ts),
            result@ > 0,
    {
        proof {
            lemma_whole(1);
            lemma_pow10_positive(28);
        }
        match self.cycle_start_ts {
            None => Decimal::one(),
            Some(cycle_ts) => {
                let held_ns: u64 = ts.0.saturating_sub(cycle_ts.0);
                let secs_1: u64 = self.config.close_decay_after_secs_1;
                let secs_2: u64 = self.config.close_decay_after_secs_2;
                let f1 = self.config.close_decay_factor_1;
                let f2 = self.config.close_decay_factor_2;
                if secs_2 > 0 && held_ns >= saturating_product(secs_2, 1_000_000_000) && f2.is_positive() {
                    f2
                } else if secs_1 > 0 && held_ns >= saturating_product(secs_1, 1_000_000_000) && f1.is_positive() {
                    f1
                } else {
                    Decimal::one()
                }
            },
        }
    }

    fn close_price(&self, close_side: Side, entry: Decimal, top: Top, ts: Timestamp) -> (result:
        Option<Price>)
        ensures
            result == exit_price(self@, close_side, entry, top, ts),
            result is Some && entry@ >= 0 && self.config.min_spread_bps@ >= 0 ==> {
                &&& close_side is Ask ==> (result->0).0@ >= entry@
                &&& close_side is Bid ==> (result->0).0@ <= entry@
            },
            result is Some && close_side is Ask && exact_difference(
                top.ask.0,
                self.config.tick_size,
            ) ==> (result->0).0@ >= top.ask.0@ - self.config.tick_size@,
            result is Some && close_side is Bid && exact_sum(top.bid.0, self.config.tick_size)
                ==> (result->0).0@ <= top.bid.0@ + self.config.tick_size@,
    {
        proof {
            lemma_whole(1);
            lemma_whole(10_000);
            lemma_pow10_positive(28);
        }
        let tick = self.config.tick_size;
        let bp = self.config.min_spread_bps.checked_mul(self.close_decay(ts))?.checked_div(
            Decimal::whole(10_000),
        )?;
        match close_side {
            Side::Ask => {
                let target = entry.checked_mul(Decimal::one().checked_add(bp)?)?;
                let touch = top.ask.0.checked_sub(tick)?;
                Some(
                    Price(
                        if touch.is_more(target) {
                            touch
                        } else {
                            target
                        },
                    ),
                )
            },
            Side::Bid => {
                let target = entry.checked_mul(Decimal::one().checked_sub(bp)?)?;
                let touch = top.bid.0.checked_add(tick)?;
                Some(
                    Price(
                        if touch.is_less(target) {
                            touch
                        } else {
                            target
                        },
                    ),
                )
            },
        }
    }

    fn try_keep_close_side(
        &mut self,
        ctx: &StrategyContext<'_>,
        snapshot: &Snapshot,
        ts: Timestamp,
    ) -> (result: Option<Option<Vec<Action>>>)
        ensures
            match close_side_kept(old(self)@, *ctx, *snapshot, ts) {
                None => result is None,
                Some(None) => result == Some(None::<Vec<Action>>) && final(self)@ == old(self)@,
                Some(Some(step)) => result is Some && follows(
                    Some(step),
                    result->0,
                    final(self)@,
                ),
            },
    {
        if !self.config.close_side_always_quotes {
            return Some(None);
        }
        let close_side = match Self::close_side_for(ctx.position.size.0) {
            Some(side) => side,
            None => {
                return Some(None);
            },
        };
        let top = match Top::from_snapshot(snapshot) {
            Some(top) => top,
            None => {
                return Some(None);
            },
        };
        let entry = ctx.position.avg_entry.0;
        if !entry.is_positive() {
            return Some(None);
        }
        let price = self.close_price(close_side, entry, top, ts)?;
        let would_cross = match close_side {
            Side::Ask => price.0.is_at_most(top.bid.0),
            Side::Bid => price.0.is_at_least(top.ask.0),
        };
        if would_cross {
            return Some(Some(Vec::new()));
        }
        let mut actions = self.drop_tracked_side(close_side.opposite());
        match close_side {
            Side::Ask => {
                self.last_bid = None;
            },
            Side::Bid => {
                self.last_ask = None;
            },
        }
        let mut close_actions = self.diff_emit(ctx, close_side, price, Decimal::one())?;
        actions.append(&mut close_actions);
        self.last_requote_ts = Some(ts);
        match close_side {
            Side::Ask => {
                self.last_ask = Some(price);
            },
            Side::Bid => {
                self.last_bid = Some(price);
            },
        }
        self.quotes_live = self.resting.current_for(close_side).is_some();
        Some(Some(actions))
    }

    fn quote_without_targets(
        &mut self,
        ctx: &StrategyContext<'_>,
        snapshot: &Snapshot,
        ts: Timestamp,
    ) -> (result: Option<Vec<Action>>)
        ensures
            follows(without_targets(old(self)@, *ctx, *snapshot, ts), result, final(self)@),
    {
        match self.try_keep_close_side(ctx, snapshot, ts)? {
            Some(actions) => Some(actions),
            None => Some(self.cancel_if_live()),
        }
    }

    fn take_in(&mut self, ctx: &StrategyContext<'_>, event: &MarketEvent) -> (result: Option<()>)
        ensures
            match informed(old(self)@, *ctx, *event) {
                Some(state) => result is Some && final(self)@ == state,
                None => result is None,
            },
    {
        self.resting.reconcile(ctx.open_quotes);
        if let Some(top) = Top::from_snapshot(ctx.latest_book) {
            let mid = top.try_mid()?;
            self.adverse.try_process_due_snapshots(ctx.now, mid)?;
        }
        if let MarketEvent::Fill(fill) = event {
            self.adverse.record_fill(fill.ts, fill.side, fill.price);
        }
        let pos_size = ctx.position.size.0;
        let was_flat = self.prev_pos_size.is_zero();
        let is_flat = pos_size.is_zero();
        if was_flat && !is_flat {
            self.cycle_start_ts = Some(ctx.now);
        } else if !was_flat && is_flat {
            self.cycle_start_ts = None;
        }
        self.prev_pos_size = pos_size;
        Some(())
    }

    fn armed_stop(&self, ctx: &StrategyContext<'_>) -> (result: Option<Top>)
        ensures
            result == stop_armed(self@, *ctx),
    {
        if self.config.adverse_stop_drift_bps == 0 || self.config.adverse_stop_after_secs == 0
            || ctx.position.size.0.is_zero() {
            return None;
        }
        match self.cycle_start_ts {
            None => None,
            Some(cycle_ts) => {
                let held_ns: u64 = ctx.now.0.saturating_sub(cycle_ts.0);
                let stop_ns: u64 = saturating_product(
                    self.config.adverse_stop_after_secs,
                    1_000_000_000,
                );
                if held_ns >= stop_ns {
                    Top::from_snapshot(ctx.latest_book)
                } else {
                    None
                }
            },
        }
    }

    fn check_adverse_stop(&mut self, ctx: &StrategyContext<'_>) -> (result: Option<
        Option<Vec<Action>>,
    >)
        ensures
            match adverse_stop(old(self)@, *ctx) {
                None => result is None,
                Some(None) => result == Some(None::<Vec<Action>>) && final(self)@ == old(self)@,
                Some(Some(step)) => result is Some && follows(
                    Some(step),
                    result->0,
                    final(self)@,
                ),
            },
            result is Some && top_of(*ctx.latest_book) is Some && top_mid(
                top_of(*ctx.latest_book)->0,
            ) is Some ==> {
                let mid = top_mid(top_of(*ctx.latest_book)->0)->0;
                let avg = ctx.position.avg_entry.0;
                let bps = old(self).config.adverse_stop_drift_bps as int;
                let qty = stepped(Some(absolute(ctx.position.size.0)), old(self).config.step_size);
                let armed = stop_armed(old(self)@, *ctx) is Some && avg@ > 0;
                let fired = result->0 is Some;
                &&& fired ==> armed
                &&& ctx.position.size.0@ > 0 && exact_difference(avg, mid) && measures_exactly(
                    difference(avg, mid)->0,
                    avg,
                ) && armed && (fired || qty is Some && qty->0@ > 0) ==> fires_at(
                    avg@ - mid@,
                    avg@,
                    bps,
                    fired,
                )
                &&& ctx.position.size.0@ < 0 && exact_difference(mid, avg) && measures_exactly(
                    difference(mid, avg)->0,
                    avg,
                ) && armed && (fired || qty is Some && qty->0@ > 0) ==> fires_at(
                    mid@ - avg@,
                    avg@,
                    bps,
                    fired,
                )
            },
    {
        let top = match self.armed_stop(ctx) {
            Some(top) => top,
            None => {
                return Some(None);
            },
        };
        let size = ctx.position.size.0;
        let mid = top.try_mid()?.0;
        let avg = ctx.position.avg_entry.0;
        if !avg.is_positive() {
            return Some(None);
        }
        let long = size.is_positive();
        let against = if long {
            avg.checked_sub(mid)?
        } else {
            mid.checked_sub(avg)?
        };
        let drift_bps = try_bps_of(against, avg)?;
        proof {
            if measures_exactly(against, avg) {
                lemma_fires_at(
                    against@,
                    avg@,
                    drift_bps@,
                    self.config.adverse_stop_drift_bps as int,
                );
            }
        }
        if drift_bps.is_less(Decimal::whole(self.config.adverse_stop_drift_bps as i64)) {
            return Some(None);
        }
        let qty = try_stepped(size.abs(), self.config.step_size)?;
        if !qty.is_positive() {
            return Some(None);
        }
        let side = if long {
            Side::Ask
        } else {
            Side::Bid
        };
        self.cycle_start_ts = None;
        let mut actions = self.drop_tracked_side(Side::Bid);
        let mut ask_cancels = self.drop_tracked_side(Side::Ask);
        actions.append(&mut ask_cancels);
        actions.push(risk::build_close(ctx.symbol, side, Size(qty), top.bid, top.ask));
        Some(Some(actions))
    }

    fn pass_risk_gate(&mut self, ctx: &StrategyContext<'_>) -> (result: Option<(bool, Vec<Action>)>)
        ensures
            match risk_gate(old(self)@, *ctx) {
                None => result is None,
                Some(Gated::Closing(state, actions)) => result is Some && !(result->0).0 && (
                result->0).1@ =~= actions && final(self)@ == state,
                Some(Gated::Passed(state, actions)) => result is Some && (result->0).0 && (
                result->0).1@ =~= actions && final(self)@ == state,
            },
    {
        let top = match Top::from_snapshot(ctx.latest_book) {
            Some(top) => top,
            None => {
                return Some((true, Vec::new()));
            },
        };
        let mid = top.try_mid()?;
        let settings = RiskConfig {
            take_profit_bps: self.config.take_profit_bps,
            stop_loss_bps: self.config.stop_loss_bps,
            take_profit_usdt_legacy: self.config.take_profit_usdt,
        };
        if let RiskDecision::Close { side, qty, .. } = risk::try_evaluate(
            ctx.position,
            mid,
            settings,
        )? {
            self.resting.drop_all();
            self.quotes_live = false;
            self.last_bid = None;
            self.last_ask = None;
            return Some(
                (
                    false,
                    vec![
                        Action::CancelAll,
                        risk::build_close(ctx.symbol, side, qty, top.bid, top.ask),
                    ],
                ),
            );
        }
        let size = ctx.position.size.0;
        let capped = is_at_cap(self.config.max_position_usdt, size, mid.0)?;
        if capped && size.is_positive() {
            return Some((true, self.drop_tracked_side(Side::Bid)));
        }
        if capped && size.is_negative() {
            return Some((true, self.drop_tracked_side(Side::Ask)));
        }
        Some((true, Vec::new()))
    }

    fn replace_filled_side(
        &mut self,
        ctx: &StrategyContext<'_>,
        side: Side,
        price: Price,
        allowed: bool,
    ) -> (result: Option<Vec<Action>>)
        ensures
            follows(
                filled_side_replaced(old(self)@, *ctx, side, price, allowed),
                result,
                final(self)@,
            ),
    {
        if !allowed {
            return Some(Vec::new());
        }
        let (bid_mult, ask_mult) = inventory_multipliers(ctx.position.size.0);
        let mult = match side {
            Side::Bid => bid_mult,
            Side::Ask => ask_mult,
        };
        let intent = self.make_quote(ctx, side, price, mult)?;
        self.resting.record_place(&intent);
        Some(vec![Action::Quote(intent)])
    }

    fn top_up_other_side(
        &mut self,
        ctx: &StrategyContext<'_>,
        side: Side,
        price: Price,
        allowed: bool,
    ) -> (result: Option<Vec<Action>>)
        ensures
            follows(
                other_side_topped_up(old(self)@, *ctx, side, price, allowed),
                result,
                final(self)@,
            ),
    {
        if !allowed {
            return Some(Vec::new());
        }
        let (bid_mult, ask_mult) = inventory_multipliers(ctx.position.size.0);
        let mult = match side {
            Side::Bid => bid_mult,
            Side::Ask => ask_mult,
        };
        match try_missing_size(
            ctx.open_quotes,
            side,
            self.config.notional_per_order,
            price,
            mult,
            self.config.step_size,
        )? {
            None => Some(Vec::new()),
            Some(extra) => {
                let intent = make_post_only_intent(ctx.symbol, side, price, Size(extra));
                self.resting.record_place(&intent);
                Some(vec![Action::Quote(intent)])
            },
        }
    }

    fn handle_fill(
        &mut self,
        ctx: &StrategyContext<'_>,
        fill: &Fill,
        cancels: Vec<Action>,
    ) -> (result: Option<Vec<Action>>)
        ensures
            follows(fill_step(old(self)@, *ctx, *fill, cancels@), result, final(self)@),
    {
        let ts = ctx.now;
        match fill.side {
            Side::Bid => {
                self.last_reject_bid_ts = None;
            },
            Side::Ask => {
                self.last_reject_ask_ts = None;
            },
        }
        self.resting.drop_side(fill.side);
        let (bid, ask) = match self.compute_targets(ctx.latest_book)? {
            Some(pair) => pair,
            None => {
                let mut rest = self.quote_without_targets(ctx, ctx.latest_book, ts)?;
                let mut out = cancels;
                out.append(&mut rest);
                return Some(out);
            },
        };
        self.last_bid = Some(bid);
        self.last_ask = Some(ask);
        self.last_requote_ts = Some(ts);
        self.quotes_live = true;
        let mid = try_midpoint(bid.0, ask.0)?;
        let size = ctx.position.size.0;
        let capped = self.is_capped_around(ctx, mid)?;
        let other = fill.side.opposite();
        let allow_filled = self.wants(size, capped, fill.side, ts);
        let allow_other = self.wants(size, capped, other, ts);
        let (filled_price, other_price) = match fill.side {
            Side::Bid => (bid, ask),
            Side::Ask => (ask, bid),
        };
        let mut first = self.replace_filled_side(ctx, fill.side, filled_price, allow_filled)?;
        let mut second = self.top_up_other_side(ctx, other, other_price, allow_other)?;
        first.append(&mut second);
        let mut out = cancels;
        out.append(&mut first);
        Some(out)
    }

    fn handle_book(
        &mut self,
        ctx: &StrategyContext<'_>,
        snapshot: &Snapshot,
        ts: Timestamp,
        cancels: Vec<Action>,
    ) -> (result: Option<Vec<Action>>)
        ensures
            follows(book_step(old(self)@, *ctx, *snapshot, ts, cancels@), result, final(self)@),
    {
        let mut actions = cancels;
        let (bid, ask) = match self.compute_targets(snapshot)? {
            Some(pair) => pair,
            None => {
                let mut rest = self.quote_without_targets(ctx, snapshot, ts)?;
                actions.append(&mut rest);
                return Some(actions);
            },
        };
        if !self.should_requote(bid, ask, ts) {
            if actions.len() == 0 {
                return Some(vec![Action::NoOp]);
            }
            return Some(actions);
        }
        let mut rest = self.emit_requote(ctx, bid, ask, ts)?;
        actions.append(&mut rest);
        Some(actions)
    }
}

impl Strategy for SpreadScalp {
    type Config = SpreadScalpConfig;

    open spec fn initial(config: SpreadScalpConfig) -> Option<ScalpState> {
        Some(
            ScalpState {
                config,
                last_bid: None,
                last_ask: None,
                last_requote_ts: None,
                quotes_live: false,
                last_reject_bid_ts: None,
                last_reject_ask_ts: None,
                resting: none_resting(),
                adverse: fresh(config.adverse),
                cycle_start_ts: None,
                prev_pos_size: whole(0),
            },
        )
    }

    open spec fn event_step(state: ScalpState, ctx: StrategyContext, event: MarketEvent) -> Option<
        (ScalpState, Seq<Action>),
    > {
        match informed(state, ctx, event) {
            None => None,
            Some(state) => match adverse_stop(state, ctx) {
                None => None,
                Some(Some(step)) => Some(step),
                Some(None) => match risk_gate(state, ctx) {
                    None => None,
                    Some(Gated::Closing(state, actions)) => Some((state, actions)),
                    Some(Gated::Passed(state, cancels)) => passed_step(state, ctx, event, cancels),
                },
            },
        }
    }

    open spec fn rejection_step(
        state: ScalpState,
        ctx: StrategyContext,
        intent: QuoteIntent,
        reason: Seq<char>,
    ) -> Option<(ScalpState, Seq<Action>)> {
        let marked = if mentions(reason, "-5022"@) || mentions(reason, "Post Only"@) {
            state
        } else {
            match intent.side {
                Side::Bid => ScalpState { last_reject_bid_ts: Some(ctx.now), ..state },
                Side::Ask => ScalpState { last_reject_ask_ts: Some(ctx.now), ..state },
            }
        };
        let cleared = ScalpState {
            last_bid: None,
            last_ask: None,
            last_requote_ts: None,
            ..marked
        };
        match targets(cleared, *ctx.latest_book) {
            None => None,
            Some(None) => without_targets(cleared, ctx, *ctx.latest_book, ctx.now),
            Some(Some((bid, ask))) => requoted(cleared, ctx, bid, ask, ctx.now),
        }
    }

    fn try_new(config: SpreadScalpConfig) -> (result: Option<SpreadScalp>) {
        Some(
            SpreadScalp {
                config,
                last_bid: None,
                last_ask: None,
                last_requote_ts: None,
                quotes_live: false,
                last_reject_bid_ts: None,
                last_reject_ask_ts: None,
                resting: RestingOrders::new(),
                adverse: AdverseTracker::new(config.adverse),
                cycle_start_ts: None,
                prev_pos_size: Decimal::zero(),
            },
        )
    }

    fn name(&self) -> (result: &str)
        ensures
            result@ == "spread-scalp"@,
    {
        "spread-scalp"
    }

    fn try_on_event(&mut self, ctx: &StrategyContext<'_>, event: &MarketEvent) -> (result: Option<
        Vec<Action>,
    >) {
        self.take_in(ctx, event)?;
        if let Some(actions) = self.check_adverse_stop(ctx)? {
            return Some(actions);
        }
        let (passed, cancels) = self.pass_risk_gate(ctx)?;
        if !passed {
            return Some(cancels);
        }
        match event {
            MarketEvent::BookUpdate { snapshot } => self.handle_book(
                ctx,
                snapshot,
                snapshot.ts,
                cancels,
            ),
            MarketEvent::Heartbeat { ts } => self.handle_book(ctx, ctx.latest_book, *ts, cancels),
            MarketEvent::Trade { .. } => Some(cancels),
            MarketEvent::Fill(fill) => self.handle_fill(ctx, fill, cancels),
        }
    }

    fn try_on_quote_rejected(
        &mut self,
        ctx: &StrategyContext<'_>,
        intent: &QuoteIntent,
        reason: &str,
    ) -> (result: Option<Vec<Action>>) {
        let ts = ctx.now;
        let is_post_only_race = text_contains(reason, "-5022") || text_contains(
            reason,
            "Post Only",
        );
        if !is_post_only_race {
            match intent.side {
                Side::Bid => {
                    self.last_reject_bid_ts = Some(ts);
                },
                Side::Ask => {
                    self.last_reject_ask_ts = Some(ts);
                },
            }
        }
        self.last_bid = None;
        self.last_ask = None;
        self.last_requote_ts = None;
        match self.compute_targets(ctx.latest_book)? {
            None => self.quote_without_targets(ctx, ctx.latest_book, ts),
            Some((bid, ask)) => self.emit_requote(ctx, bid, ask, ts),
        }
    }

    fn on_notional_updated(
        &mut self,
        ctx: &StrategyContext<'_>,
        notional_per_order: Decimal,
    ) -> (result: Vec<Action>)
        ensures
            result@ == Seq::<Action>::empty(),
            final(self)@ == (if notional_per_order@ > 0 {
                ScalpState {
                    config: SpreadScalpConfig { notional_per_order, ..old(self)@.config },
                    ..old(self)@
                }
            } else {
                old(self)@
            }),
    {
        if notional_per_order.is_positive() {
            self.config.notional_per_order = notional_per_order;
        }
        Vec::new()
    }

    fn on_max_position_updated(
        &mut self,
        ctx: &StrategyContext<'_>,
        max_position_usdt: Decimal,
    ) -> (result: Vec<Action>)
        ensures
            result@ == Seq::<Action>::empty(),
            final(self)@ == (if max_position_usdt@ > 0 {
                ScalpState {
                    config: SpreadScalpConfig { max_position_usdt, ..old(self)@.config },
                    ..old(self)@
                }
            } else {
                old(self)@
            }),
    {
        if max_position_usdt.is_positive() {
            self.config.max_position_usdt = max_position_usdt;
        }
        Vec::new()
    }
}

/// The two targets never cross each other.
pub proof fn law_targets_do_not_cross(state: ScalpState, snapshot: Snapshot)
    ensures
        targets(state, snapshot) matches Some(Some((bid, ask))) ==> bid.0@ < ask.0@,
{
}

/// In tick mode a long is never offered below its distance above the entry, nor a
/// short bid for above its distance below it; the other side keeps its target.
pub proof fn law_close_target_holds_out(
    config: SpreadScalpConfig,
    position_size: Decimal,
    avg: Decimal,
    bid: Price,
    ask: Price,
)
    requires
        !config.strict_touch_quotes,
        config.quote_offset_ticks >= 0,
        avg@ > 0,
        close_anchored(config, position_size, avg, bid, ask) is Some,
    ensures
        ({
            let (safe_bid, safe_ask) = close_anchored(config, position_size, avg, bid, ask)->0;
            let distance = product(whole(close_ticks(config)), config.tick_size);
            &&& position_size@ > 0 ==> safe_bid == bid && safe_ask.0@ >= ask.0@ && safe_ask.0@ >= (
            plus(Some(avg), distance)->0)@
            &&& position_size@ < 0 ==> safe_ask == ask && safe_bid.0@ <= bid.0@ && safe_bid.0@ <= (
            minus(Some(avg), distance)->0)@
            &&& position_size@ == 0 ==> safe_bid == bid && safe_ask == ask
        }),
{
}

proof fn lemma_side_requoted_stays(
    state: ScalpState,
    ctx: StrategyContext,
    side: Side,
    price: Price,
    want: bool,
    other: Side,
)
    ensures
        side_requoted(state, ctx, side, price, want) matches Some((_, actions)) ==> quotes_on(
            actions,
            other,
        ) ==> other == side && want,
{
}

/// A requote never quotes a side that is not wanted: one in cooldown after a
/// rejection, or one that would grow a position at its cap.
pub proof fn law_requote_respects_cap_and_cooldown(
    state: ScalpState,
    ctx: StrategyContext,
    bid: Price,
    ask: Price,
    ts: Timestamp,
    side: Side,
)
    requires
        requoted(state, ctx, bid, ask, ts) is Some,
        ({
            let size = ctx.position.size.0;
            let (safe_bid, safe_ask) = close_anchored(
                state.config,
                size,
                ctx.position.avg_entry.0,
                bid,
                ask,
            )->0;
            let capped = capped_around(
                state.config,
                ctx,
                midpoint(safe_bid.0, safe_ask.0)->0,
            )->0;
            ||| in_cooldown(state, side, ts)
            ||| capped && side == Side::Bid && size@ > 0
            ||| capped && side == Side::Ask && size@ < 0
        }),
    ensures
        !quotes_on((requoted(state, ctx, bid, ask, ts)->0).1, side),
{
    let size = ctx.position.size.0;
    let (bid, ask) = close_anchored(state.config, size, ctx.position.avg_entry.0, bid, ask)->0;
    let marked = ScalpState {
        last_bid: Some(bid),
        last_ask: Some(ask),
        last_requote_ts: Some(ts),
        quotes_live: true,
        ..state
    };
    let capped = capped_around(state.config, ctx, midpoint(bid.0, ask.0)->0)->0;
    let want_bid = wanted(marked, size, capped, Side::Bid, ts);
    let want_ask = wanted(marked, size, capped, Side::Ask, ts);
    lemma_side_requoted_stays(marked, ctx, Side::Bid, bid, want_bid, side);
    let (next, first) = side_requoted(marked, ctx, Side::Bid, bid, want_bid)->0;
    lemma_side_requoted_stays(next, ctx, Side::Ask, ask, want_ask, side);
    let (_, second) = side_requoted(next, ctx, Side::Ask, ask, want_ask)->0;
    lemma_quotes_on_joined(first, second, side);
}

/// The side that would grow the position, if there is one.
pub open spec fn growing_side(position_size: Decimal) -> Option<Side> {
    if position_size@ > 0 {
        Some(Side::Bid)
    } else if position_size@ < 0 {
        Some(Side::Ask)
    } else {
        None
    }
}

/// The venue's id of the order tracked on a side, where it is known.
pub open spec fn known_id(state: ScalpState, side: Side) -> Option<QuoteId> {
    match quote_on(state.resting, side) {
        Some(resting) => resting.id,
        None => None,
    }
}

/// The book whose top an event quotes around.
pub open spec fn quoted_book(ctx: StrategyContext, event: MarketEvent) -> Snapshot {
    match event {
        MarketEvent::BookUpdate { snapshot } => snapshot,
        _ => *ctx.latest_book,
    }
}

/// The mid of the prices that an event quotes around while two sides are quoted: the
/// targets of a fill, or those of a requote with the closing side held out.
pub open spec fn quoted_mid(state: ScalpState, ctx: StrategyContext, event: MarketEvent) -> Option<
    Decimal,
> {
    match targets(state, quoted_book(ctx, event)) {
        Some(Some((bid, ask))) => match event {
            MarketEvent::Fill(_) => midpoint(bid.0, ask.0),
            _ => match close_anchored(
                state.config,
                ctx.position.size.0,
                ctx.position.avg_entry.0,
                bid,
                ask,
            ) {
                None => None,
                Some((safe_bid, safe_ask)) => midpoint(safe_bid.0, safe_ask.0),
            },
        },
        _ => None,
    }
}

proof fn lemma_without_targets_only_closes(
    state: ScalpState,
    ctx: StrategyContext,
    snapshot: Snapshot,
    ts: Timestamp,
    side: Side,
)
    requires
        growing_side(ctx.position.size.0) == Some(side),
    ensures
        without_targets(state, ctx, snapshot, ts) matches Some((_, actions)) ==> !quotes_on(
            actions,
            side,
        ),
{
    law_kept_close_side_rests(state, ctx, snapshot, ts);
}

proof fn lemma_fill_respects_cap(
    state: ScalpState,
    ctx: StrategyContext,
    fill: Fill,
    cancels: Seq<Action>,
    side: Side,
)
    requires
        growing_side(ctx.position.size.0) == Some(side),
        !quotes_on(cancels, side),
        quoted_mid(state, ctx, MarketEvent::Fill(fill)) matches Some(mid) ==> capped_around(
            state.config,
            ctx,
            mid,
        ) != Some(false),
    ensures
        fill_step(state, ctx, fill, cancels) matches Some((_, actions)) ==> !quotes_on(
            actions,
            side,
        ),
{
    let size = ctx.position.size.0;
    let ts = ctx.now;
    let other = opposite(fill.side);
    let forgiven = match fill.side {
        Side::Bid => ScalpState { last_reject_bid_ts: None, ..state },
        Side::Ask => ScalpState { last_reject_ask_ts: None, ..state },
    };
    let cleared = ScalpState { resting: with_side(state.resting, fill.side, None), ..forgiven };
    assert(targets(cleared, *ctx.latest_book) == targets(state, *ctx.latest_book));
    match targets(cleared, *ctx.latest_book) {
        None => {},
        Some(None) => {
            lemma_without_targets_only_closes(cleared, ctx, *ctx.latest_book, ts, side);
            if let Some((_, actions)) = without_targets(cleared, ctx, *ctx.latest_book, ts) {
                lemma_quotes_on_joined(cancels, actions, side);
            }
        },
        Some(Some((bid, ask))) => {
            let marked = ScalpState {
                last_bid: Some(bid),
                last_ask: Some(ask),
                last_requote_ts: Some(ts),
                quotes_live: true,
                ..cleared
            };
            if let Some(mid) = midpoint(bid.0, ask.0) {
                if let Some(capped) = capped_around(marked.config, ctx, mid) {
                    assert(capped);
                    if let Some((replaced, first)) = filled_side_replaced(
                        marked,
                        ctx,
                        fill.side,
                        on_side(fill.side, bid, ask),
                        wanted(marked, size, capped, fill.side, ts),
                    ) {
                        if let Some((_, second)) = other_side_topped_up(
                            replaced,
                            ctx,
                            other,
                            on_side(other, bid, ask),
                            wanted(marked, size, capped, other, ts),
                        ) {
                            assert(!quotes_on(first, side));
                            assert(!quotes_on(second, side));
                            lemma_quotes_on_joined(first, second, side);
                            lemma_quotes_on_joined(cancels, first + second, side);
                        }
                    }
                }
            }
        },
    }
}

proof fn lemma_book_respects_cap(
    state: ScalpState,
    ctx: StrategyContext,
    event: MarketEvent,
    ts: Timestamp,
    cancels: Seq<Action>,
    side: Side,
)
    requires
        event is BookUpdate || event is Heartbeat,
        growing_side(ctx.position.size.0) == Some(side),
        !quotes_on(cancels, side),
        quoted_mid(state, ctx, event) matches Some(mid) ==> capped_around(
            state.config,
            ctx,
            mid,
        ) != Some(false),
    ensures
        book_step(state, ctx, quoted_book(ctx, event), ts, cancels) matches Some((_, actions))
            ==> !quotes_on(actions, side),
{
    let snapshot = quoted_book(ctx, event);
    match targets(state, snapshot) {
        None => {},
        Some(None) => {
            lemma_without_targets_only_closes(state, ctx, snapshot, ts, side);
            if let Some((_, actions)) = without_targets(state, ctx, snapshot, ts) {
                lemma_quotes_on_joined(cancels, actions, side);
            }
        },
        Some(Some((bid, ask))) => {
            if let Some((_, actions)) = requoted(state, ctx, bid, ask, ts) {
                law_requote_respects_cap_and_cooldown(state, ctx, bid, ask, ts, side);
                lemma_quotes_on_joined(cancels, actions, side);
            }
        },
    }
}

proof fn lemma_stop_only_closes(state: ScalpState, ctx: StrategyContext, side: Side)
    requires
        growing_side(ctx.position.size.0) == Some(side),
    ensures
        adverse_stop(state, ctx) matches Some(Some((_, actions))) ==> !quotes_on(actions, side),
        adverse_stop(state, ctx) matches Some(Some((_, actions))) ==> (known_id(state, side)
            matches Some(id) ==> actions.contains(Action::Cancel(id))),
{
    if let Some(Some((_, actions))) = adverse_stop(state, ctx) {
        let cleared = ScalpState { cycle_start_ts: None, ..state };
        let (no_bid, bid_cancel) = side_dropped(cleared, Side::Bid);
        let (no_ask, ask_cancel) = side_dropped(no_bid, Side::Ask);
        let both = bid_cancel + ask_cancel;
        assert(actions == both.push(actions.last()));
        if let Some(id) = known_id(state, side) {
            let at: int = if side == Side::Bid {
                0
            } else {
                bid_cancel.len() as int
            };
            assert(actions[at] == Action::Cancel(id));
        }
    }
}

/// The position cap holds on every event, whatever it is. Where the position is at its cap
/// at the mid of the latest book, the event does not quote the side that would grow it, no
/// bid for a long and no ask for a short, and the order known to rest on that side is
/// cancelled, by its id or with all others. Nor does an event quote that side where the
/// position is at its cap at the mid of the prices it quotes around.
pub proof fn law_cap_holds_on_every_event(
    state: ScalpState,
    ctx: StrategyContext,
    event: MarketEvent,
    side: Side,
)
    requires
        growing_side(ctx.position.size.0) == Some(side),
        SpreadScalp::event_step(state, ctx, event) is Some,
    ensures
        ({
            let actions = (SpreadScalp::event_step(state, ctx, event)->0).1;
            let seen = informed(state, ctx, event)->0;
            let mid = quoted_mid(seen, ctx, event);
            mid is Some && at_cap(
                state.config.max_position_usdt,
                ctx.position.size.0,
                mid->0,
            ) != Some(true) || !quotes_on(actions, side)
        }),
        ({
            let actions = (SpreadScalp::event_step(state, ctx, event)->0).1;
            let seen = informed(state, ctx, event)->0;
            capped_at_book(state.config, ctx) == Some(true) ==> !quotes_on(actions, side) && (
            known_id(seen, side) matches Some(id) ==> actions.contains(
                Action::Cancel(id),
            ) || actions.contains(Action::CancelAll))
        }),
{
    let seen = informed(state, ctx, event)->0;
    let size = ctx.position.size.0;
    let actions = (SpreadScalp::event_step(state, ctx, event)->0).1;
    lemma_stop_only_closes(seen, ctx, side);
    if adverse_stop(seen, ctx) == Some(None::<(ScalpState, Seq<Action>)>) {
        match risk_gate(seen, ctx)->0 {
            Gated::Closing(_, _) => {
                assert(actions[0] == Action::CancelAll);
                assert(!quotes_on(actions, side));
            },
            Gated::Passed(next, cancels) => {
                assert(!quotes_on(cancels, side));
                assert(targets(next, quoted_book(ctx, event)) == targets(
                    seen,
                    quoted_book(ctx, event),
                ));
                assert(quoted_mid(next, ctx, event) == quoted_mid(seen, ctx, event));
                let mid = quoted_mid(seen, ctx, event);
                if capped_at_book(state.config, ctx) == Some(true) || !(mid is Some && at_cap(
                    state.config.max_position_usdt,
                    size,
                    mid->0,
                ) != Some(true)) {
                    match event {
                        MarketEvent::BookUpdate { snapshot } => {
                            lemma_book_respects_cap(next, ctx, event, snapshot.ts, cancels, side);
                        },
                        MarketEvent::Heartbeat { ts } => {
                            lemma_book_respects_cap(next, ctx, event, ts, cancels, side);
                        },
                        MarketEvent::Fill(fill) => {
                            lemma_fill_respects_cap(next, ctx, fill, cancels, side);
                        },
                        MarketEvent::Trade { .. } => {},
                    }
                }
                if cancels.len() > 0 {
                    assert(actions[0] == cancels[0]);
                }
            },
        }
    }
}

/// The position cap holds after a rejection too: where the position is at its cap at the mid
/// of the latest book, the side that would grow it is not quoted.
pub proof fn law_cap_holds_after_rejections(
    state: ScalpState,
    ctx: StrategyContext,
    intent: QuoteIntent,
    reason: Seq<char>,
    side: Side,
)
    requires
        growing_side(ctx.position.size.0) == Some(side),
        capped_at_book(state.config, ctx) == Some(true),
    ensures
        SpreadScalp::rejection_step(state, ctx, intent, reason) matches Some((_, actions))
            ==> !quotes_on(actions, side),
{
    let marked = if mentions(reason, "-5022"@) || mentions(reason, "Post Only"@) {
        state
    } else {
        match intent.side {
            Side::Bid => ScalpState { last_reject_bid_ts: Some(ctx.now), ..state },
            Side::Ask => ScalpState { last_reject_ask_ts: Some(ctx.now), ..state },
        }
    };
    let cleared = ScalpState { last_bid: None, last_ask: None, last_requote_ts: None, ..marked };
    lemma_without_targets_only_closes(cleared, ctx, *ctx.latest_book, ctx.now, side);
    if let Some(Some((bid, ask))) = targets(cleared, *ctx.latest_book) {
        if requoted(cleared, ctx, bid, ask, ctx.now) is Some {
            law_requote_respects_cap_and_cooldown(cleared, ctx, bid, ask, ctx.now, side);
        }
    }
}

/// A price beyond the touch is never quoted on the closing side: where holding out
/// would take liquidity, nothing is done.
pub proof fn law_kept_close_side_rests(
    state: ScalpState,
    ctx: StrategyContext,
    snapshot: Snapshot,
    ts: Timestamp,
)
    ensures
        close_side_kept(state, ctx, snapshot, ts) matches Some(Some((next, actions))) ==> {
            let side = closing_side(ctx.position.size.0)->0;
            &&& closing_side(ctx.position.size.0) is Some
            &&& !quotes_on(actions, opposite(side))
            &&& forall|i: int|
                0 <= i < actions.len() ==> (#[trigger] actions[i] matches Action::Quote(intent)
                    ==> intent.side == side && !crosses(
                    side,
                    intent.price,
                    top_of(snapshot)->0,
                ))
        },
{
}

/// Withdrawing leaves nothing resting and nothing live, and is done at most once:
/// a second time there is nothing left to cancel.
pub proof fn law_withdrawing_settles(state: ScalpState)
    ensures
        !withdrawn(state).0.quotes_live,
        state.quotes_live ==> withdrawn(state).0.resting == none_resting(),
        withdrawn(withdrawn(state).0) == (withdrawn(state).0, Seq::<Action>::empty()),
{
}

proof fn lemma_side_requoted_keeps_to(
    state: ScalpState,
    ctx: StrategyContext,
    side: Side,
    price: Price,
    want: bool,
)
    ensures
        side_requoted(state, ctx, side, price, want) matches Some((_, actions)) ==> keeps_to(
            actions,
            *ctx.symbol,
        ),
{
}

proof fn lemma_requoted_keeps_to(
    state: ScalpState,
    ctx: StrategyContext,
    bid: Price,
    ask: Price,
    ts: Timestamp,
)
    ensures
        requoted(state, ctx, bid, ask, ts) matches Some((_, actions)) ==> keeps_to(
            actions,
            *ctx.symbol,
        ),
{
    let size = ctx.position.size.0;
    if let Some((bid, ask)) = close_anchored(
        state.config,
        size,
        ctx.position.avg_entry.0,
        bid,
        ask,
    ) {
        let marked = ScalpState {
            last_bid: Some(bid),
            last_ask: Some(ask),
            last_requote_ts: Some(ts),
            quotes_live: true,
            ..state
        };
        if let Some(mid) = midpoint(bid.0, ask.0) {
            if let Some(capped) = capped_around(marked.config, ctx, mid) {
                let want_bid = wanted(marked, size, capped, Side::Bid, ts);
                let want_ask = wanted(marked, size, capped, Side::Ask, ts);
                lemma_side_requoted_keeps_to(marked, ctx, Side::Bid, bid, want_bid);
                if let Some((next, first)) = side_requoted(marked, ctx, Side::Bid, bid, want_bid) {
                    lemma_side_requoted_keeps_to(next, ctx, Side::Ask, ask, want_ask);
                    if let Some((_, second)) = side_requoted(next, ctx, Side::Ask, ask, want_ask) {
                        lemma_keeps_to_joined(first, second, *ctx.symbol);
                    }
                }
            }
        }
    }
}

proof fn lemma_entry_keeps_to(
    state: ScalpState,
    symbol: Symbol,
    side: Side,
    price: Price,
    size_multiplier: Decimal,
)
    ensures
        entry_moved(state, symbol, side, price, size_multiplier) matches Some((_, actions))
            ==> keeps_to(actions, symbol),
{
}

proof fn lemma_without_targets_keeps_to(
    state: ScalpState,
    ctx: StrategyContext,
    snapshot: Snapshot,
    ts: Timestamp,
)
    ensures
        without_targets(state, ctx, snapshot, ts) matches Some((_, actions)) ==> keeps_to(
            actions,
            *ctx.symbol,
        ),
{
    match (closing_side(ctx.position.size.0), top_of(snapshot)) {
        (Some(close_side), Some(top)) => {
            if let Some(price) = exit_price(state, close_side, ctx.position.avg_entry.0, top, ts) {
                let (without, cancels) = side_dropped(state, opposite(close_side));
                let lone = match close_side {
                    Side::Ask => ScalpState { last_bid: None, ..without },
                    Side::Bid => ScalpState { last_ask: None, ..without },
                };
                lemma_entry_keeps_to(lone, *ctx.symbol, close_side, price, whole(1));
                if let Some((_, actions)) = entry_moved(
                    lone,
                    *ctx.symbol,
                    close_side,
                    price,
                    whole(1),
                ) {
                    lemma_keeps_to_joined(cancels, actions, *ctx.symbol);
                }
            }
        },
        _ => {},
    }
}

proof fn lemma_fill_keeps_to(
    state: ScalpState,
    ctx: StrategyContext,
    fill: Fill,
    cancels: Seq<Action>,
)
    requires
        keeps_to(cancels, *ctx.symbol),
    ensures
        fill_step(state, ctx, fill, cancels) matches Some((_, actions)) ==> keeps_to(
            actions,
            *ctx.symbol,
        ),
{
    let size = ctx.position.size.0;
    let ts = ctx.now;
    let other = opposite(fill.side);
    let forgiven = match fill.side {
        Side::Bid => ScalpState { last_reject_bid_ts: None, ..state },
        Side::Ask => ScalpState { last_reject_ask_ts: None, ..state },
    };
    let cleared = ScalpState { resting: with_side(state.resting, fill.side, None), ..forgiven };
    match targets(cleared, *ctx.latest_book) {
        None => {},
        Some(None) => {
            lemma_without_targets_keeps_to(cleared, ctx, *ctx.latest_book, ts);
            if let Some((_, actions)) = without_targets(cleared, ctx, *ctx.latest_book, ts) {
                lemma_keeps_to_joined(cancels, actions, *ctx.symbol);
            }
        },
        Some(Some((bid, ask))) => {
            let marked = ScalpState {
                last_bid: Some(bid),
                last_ask: Some(ask),
                last_requote_ts: Some(ts),
                quotes_live: true,
                ..cleared
            };
            if let Some(mid) = midpoint(bid.0, ask.0) {
                if let Some(capped) = capped_around(marked.config, ctx, mid) {
                    if let Some((replaced, first)) = filled_side_replaced(
                        marked,
                        ctx,
                        fill.side,
                        on_side(fill.side, bid, ask),
                        wanted(marked, size, capped, fill.side, ts),
                    ) {
                        if let Some((_, second)) = other_side_topped_up(
                            replaced,
                            ctx,
                            other,
                            on_side(other, bid, ask),
                            wanted(marked, size, capped, other, ts),
                        ) {
                            lemma_keeps_to_joined(first, second, *ctx.symbol);
                            lemma_keeps_to_joined(cancels, first + second, *ctx.symbol);
                        }
                    }
                }
            }
        },
    }
}

proof fn lemma_book_keeps_to(
    state: ScalpState,
    ctx: StrategyContext,
    snapshot: Snapshot,
    ts: Timestamp,
    cancels: Seq<Action>,
)
    requires
        keeps_to(cancels, *ctx.symbol),
    ensures
        book_step(state, ctx, snapshot, ts, cancels) matches Some((_, actions)) ==> keeps_to(
            actions,
            *ctx.symbol,
        ),
{
    match targets(state, snapshot) {
        None => {},
        Some(None) => {
            lemma_without_targets_keeps_to(state, ctx, snapshot, ts);
            if let Some((_, actions)) = without_targets(state, ctx, snapshot, ts) {
                lemma_keeps_to_joined(cancels, actions, *ctx.symbol);
            }
        },
        Some(Some((bid, ask))) => {
            lemma_requoted_keeps_to(state, ctx, bid, ask, ts);
            if let Some((_, actions)) = requoted(state, ctx, bid, ask, ts) {
                lemma_keeps_to_joined(cancels, actions, *ctx.symbol);
            }
        },
    }
}

proof fn lemma_passed_keeps_to(
    state: ScalpState,
    ctx: StrategyContext,
    event: MarketEvent,
    cancels: Seq<Action>,
)
    requires
        keeps_to(cancels, *ctx.symbol),
    ensures
        passed_step(state, ctx, event, cancels) matches Some((_, actions)) ==> keeps_to(
            actions,
            *ctx.symbol,
        ),
{
    match event {
        MarketEvent::BookUpdate { snapshot } => {
            lemma_book_keeps_to(state, ctx, snapshot, snapshot.ts, cancels);
        },
        MarketEvent::Heartbeat { ts } => {
            lemma_book_keeps_to(state, ctx, *ctx.latest_book, ts, cancels);
        },
        MarketEvent::Fill(fill) => {
            lemma_fill_keeps_to(state, ctx, fill, cancels);
        },
        MarketEvent::Trade { .. } => {},
    }
}

proof fn lemma_stop_keeps_to(state: ScalpState, ctx: StrategyContext)
    ensures
        adverse_stop(state, ctx) matches Some(Some((_, actions))) ==> keeps_to(
            actions,
            *ctx.symbol,
        ),
{
}

/// No event and no rejection calls for an order in another instrument.
pub proof fn law_quotes_its_instrument(
    state: ScalpState,
    ctx: StrategyContext,
    event: MarketEvent,
    intent: QuoteIntent,
    reason: Seq<char>,
)
    ensures
        SpreadScalp::event_step(state, ctx, event) matches Some((_, actions)) ==> keeps_to(
            actions,
            *ctx.symbol,
        ),
        SpreadScalp::rejection_step(state, ctx, intent, reason) matches Some((_, actions))
            ==> keeps_to(actions, *ctx.symbol),
{
    if let Some(seen) = informed(state, ctx, event) {
        lemma_stop_keeps_to(seen, ctx);
        if let Some(Gated::Passed(next, cancels)) = risk_gate(seen, ctx) {
            lemma_passed_keeps_to(next, ctx, event, cancels);
        }
    }
    let marked = if mentions(reason, "-5022"@) || mentions(reason, "Post Only"@) {
        state
    } else {
        match intent.side {
            Side::Bid => ScalpState { last_reject_bid_ts: Some(ctx.now), ..state },
            Side::Ask => ScalpState { last_reject_ask_ts: Some(ctx.now), ..state },
        }
    };
    let cleared = ScalpState { last_bid: None, last_ask: None, last_requote_ts: None, ..marked };
    lemma_without_targets_keeps_to(cleared, ctx, *ctx.latest_book, ctx.now);
    if let Some(Some((bid, ask))) = targets(cleared, *ctx.latest_book) {
        lemma_requoted_keeps_to(cleared, ctx, bid, ask, ctx.now);
    }
}

/// The closing quote kept on a tight book never realizes less than the spread aimed at: for a
/// long its price is at least `entry x (1 + min_spread_bps x decay / 10_000)` and at least a
/// tick inside the ask, for a short at most `entry x (1 - min_spread_bps x decay / 10_000)`
/// and at most a tick inside the bid, and it is one of the two.
pub proof fn law_kept_close_realizes_the_spread(
    state: ScalpState,
    ctx: StrategyContext,
    snapshot: Snapshot,
    ts: Timestamp,
    intent: QuoteIntent,
    bp: Decimal,
)
    requires
        close_side_kept(state, ctx, snapshot, ts) matches Some(Some((_, actions)))
            && actions.contains(Action::Quote(intent)),
        over(product(state.config.min_spread_bps, decay_factor(state, ts)), Some(whole(10_000)))
            == Some(bp),
    ensures
        ({
            let price = intent.price.0;
            let entry = ctx.position.avg_entry.0;
            let tick = state.config.tick_size;
            if ctx.position.size.0@ > 0 {
                let target = times(Some(entry), sum(whole(1), bp));
                let touch = difference(snapshot.asks@[0].price.0, tick);
                &&& intent.side is Ask
                &&& target is Some && touch is Some
                &&& price@ >= target->0@
                &&& price@ >= touch->0@
                &&& Some(price) == target || Some(price) == touch
            } else {
                let target = times(Some(entry), difference(whole(1), bp));
                let touch = sum(snapshot.bids@[0].price.0, tick);
                &&& intent.side is Bid
                &&& target is Some && touch is Some
                &&& price@ <= target->0@
                &&& price@ <= touch->0@
                &&& Some(price) == target || Some(price) == touch
            }
        }),
{
    let actions = (close_side_kept(state, ctx, snapshot, ts)->0->0).1;
    let i = choose|i: int| 0 <= i < actions.len() && actions[i] == Action::Quote(intent);
    assert(actions[i] == Action::Quote(intent));
}

/// The spread aimed at shrinks with the time a position has been held: not before the first
/// delay, by the first factor after it, and by the second once the second delay has passed.
pub proof fn law_close_decays_in_two_stages(state: ScalpState, ts: Timestamp)
    requires
        state.cycle_start_ts is Some,
        (state.cycle_start_ts->0).0 <= ts.0,
        state.config.close_decay_factor_1@ > 0,
        state.config.close_decay_factor_2@ > 0,
        0 < state.config.close_decay_after_secs_1 <= state.config.close_decay_after_secs_2,
        state.config.close_decay_after_secs_2 * 1_000_000_000 <= u64::MAX,
    ensures
        ({
            let held = ts.0 - (state.cycle_start_ts->0).0;
            let first = state.config.close_decay_after_secs_1 * 1_000_000_000;
            let second = state.config.close_decay_after_secs_2 * 1_000_000_000;
            &&& held < first ==> decay_factor(state, ts) == whole(1)
            &&& first <= held < second ==> decay_factor(state, ts)
                == state.config.close_decay_factor_1
            &&& second <= held ==> decay_factor(state, ts) == state.config.close_decay_factor_2
        }),
{
}

/// Both sides are quoted only where the spread reaches the configured one and the surcharge
/// for toxic fills on top of it.
pub proof fn law_tight_books_have_no_targets(
    state: ScalpState,
    snapshot: Snapshot,
    least: Decimal,
    surcharge: Decimal,
)
    requires
        widening(state.adverse) == Some(surcharge),
        sum(state.config.min_spread_bps, surcharge) == Some(least),
    ensures
        targets(state, snapshot) matches Some(Some(_)) ==> {
            let spread_bps = top_spread_bps(top_of(snapshot)->0);
            &&& top_of(snapshot) is Some
            &&& spread_bps is Some && spread_bps->0 is Some
            &&& (spread_bps->0)->0@ >= least@
        },
{
}

/// The adverse-drift stop waits until the position has been held for its whole delay.
pub proof fn law_stop_waits_for_its_delay(state: ScalpState, ctx: StrategyContext)
    ensures
        stop_armed(state, ctx) is Some ==> state.cycle_start_ts is Some && ctx.position.size.0@ != 0
            && state.config.adverse_stop_drift_bps > 0,
        state.cycle_start_ts is Some && 0 <= ctx.now.0 - (state.cycle_start_ts->0).0
            < state.config.adverse_stop_after_secs * 1_000_000_000 <= u64::MAX ==> stop_armed(
            state,
            ctx,
        ) is None,
        state.cycle_start_ts is Some && ctx.now.0 - (state.cycle_start_ts->0).0
            >= state.config.adverse_stop_after_secs * 1_000_000_000 > 0
            && state.config.adverse_stop_drift_bps > 0 && ctx.position.size.0@ != 0 ==> stop_armed(
            state,
            ctx,
        ) == top_of(*ctx.latest_book),
{
}

/// A cycle starts when a position is opened, lasts while it is held and ends when it is flat.
pub proof fn law_cycle_follows_the_position(
    state: ScalpState,
    ctx: StrategyContext,
    event: MarketEvent,
)
    requires
        informed(state, ctx, event) is Some,
    ensures
        ({
            let next = informed(state, ctx, event)->0;
            let size = ctx.position.size.0;
            &&& next.prev_pos_size == size
            &&& state.prev_pos_size@ == 0 && size@ != 0 ==> next.cycle_start_ts == Some(ctx.now)
            &&& state.prev_pos_size@ != 0 && size@ == 0 ==> next.cycle_start_ts is None
            &&& (state.prev_pos_size@ == 0) == (size@ == 0) ==> next.cycle_start_ts
                == state.cycle_start_ts
        }),
{
}

/// Quotes are moved only where a target moved, and no sooner than the interval allows.
pub proof fn law_requotes_are_spaced(state: ScalpState, bid: Price, ask: Price, ts: Timestamp)
    ensures
        state.last_bid == Some(bid) && state.last_ask == Some(ask) ==> !requote_due(
            state,
            bid,
            ask,
            ts,
        ),
        state.last_requote_ts is Some && 0 <= ts.0 - (state.last_requote_ts->0).0
            < state.config.requote_interval_ms * 1_000_000 <= u64::MAX ==> !requote_due(
            state,
            bid,
            ask,
            ts,
        ),
        state.last_bid is None || state.last_ask is None ==> (state.last_requote_ts is None
            ==> requote_due(state, bid, ask, ts)),
{
}

/// What is left of a position below the minimum notional is not quoted; anything else on the
/// closing side is quoted for exactly that quantity.
pub proof fn law_dust_is_left_alone(
    state: ScalpState,
    symbol: Symbol,
    side: Side,
    price: Price,
    qty: Decimal,
    value: Decimal,
)
    requires
        product(qty, price.0) == Some(value),
    ensures
        0 < state.config.min_notional@ && value@ < state.config.min_notional@ ==> close_moved(
            state,
            symbol,
            side,
            price,
            qty,
        ) == Some((state, Seq::<Action>::empty())),
        state.config.min_notional@ <= 0 || value@ >= state.config.min_notional@ ==> (close_moved(
            state,
            symbol,
            side,
            price,
            qty,
        ) matches Some((_, actions)) ==> quote_on(state.resting, side) is None ==> actions == seq![
            Action::Quote(maker_order(symbol, side, price.0, qty)),
        ]),
{
}

/// The adverse-drift stop fires, once armed, exactly where the mid has moved against the position
/// by its drift: below the average entry for a long, above it for a short.
pub proof fn law_stop_measures_the_drift(
    position_size: Decimal,
    avg: Decimal,
    mid: Decimal,
    lost: Decimal,
    lost_bps: Decimal,
    bps: int,
)
    requires
        position_size@ > 0 ==> difference(avg, mid) == Some(lost) && lost@ == avg@ - mid@,
        position_size@ < 0 ==> difference(mid, avg) == Some(lost) && lost@ == mid@ - avg@,
        position_size@ != 0,
        reads_exactly(lost, avg, lost_bps),
    ensures
        adverse_drift_bps(position_size, avg, mid) matches Some(drift) && {
            &&& position_size@ > 0 ==> (drift@ >= bps * pow10(28) <==> (avg@ - mid@) * 10_000 >= bps
                * avg@)
            &&& position_size@ < 0 ==> (drift@ >= bps * pow10(28) <==> (mid@ - avg@) * 10_000 >= bps
                * avg@)
        },
{
    lemma_reads_exactly(lost, avg, lost_bps, bps);
}

/// The stop closes what the lot grid allows of the position, against it, at the opposing touch,
/// and only where the drift has reached its threshold.
pub proof fn law_stop_closes_the_position(
    state: ScalpState,
    ctx: StrategyContext,
    top: Top,
    mid: Decimal,
    drift: Decimal,
)
    requires
        stop_armed(state, ctx) == Some(top),
        top_mid(top) == Some(mid),
        adverse_drift_bps(ctx.position.size.0, ctx.position.avg_entry.0, mid) == Some(drift),
    ensures
        adverse_stop(state, ctx) matches Some(Some((next, actions))) ==> {
            let order = actions.last()->Quote_0;
            &&& drift@ >= state.config.adverse_stop_drift_bps * pow10(28)
            &&& ctx.position.avg_entry.0@ > 0
            &&& next.cycle_start_ts is None
            &&& actions.len() > 0 && actions.last() is Quote && order.tif is IOC
            &&& Some(order.size.0) == stepped(
                Some(absolute(ctx.position.size.0)),
                state.config.step_size,
            )
            &&& ctx.position.size.0@ > 0 ==> order.side is Ask && order.price == top.bid
            &&& ctx.position.size.0@ < 0 ==> order.side is Bid && order.price == top.ask
        },
{
    lemma_whole(state.config.adverse_stop_drift_bps as int);
}

/// The targets stand the offset outside the touches where it is not negative, inside where it is.
pub proof fn law_targets_are_offset_from_the_touches(
    config: SpreadScalpConfig,
    top: Top,
    outward: Decimal,
    inward: Decimal,
)
    requires
        config.quote_offset_ticks >= 0 ==> product(
            whole(config.quote_offset_ticks as int),
            config.tick_size,
        ) == Some(outward),
        i32::MIN < config.quote_offset_ticks < 0 ==> product(
            whole(-config.quote_offset_ticks),
            config.tick_size,
        ) == Some(inward),
    ensures
        config.quote_offset_ticks >= 0 ==> (offset_touches(config, top) matches Some((bid, ask))
            ==> difference(top.bid.0, outward) == Some(bid.0) && sum(top.ask.0, outward) == Some(
            ask.0,
        )),
        i32::MIN < config.quote_offset_ticks < 0 ==> (offset_touches(config, top) matches Some(
            (bid, ask),
        ) ==> sum(top.bid.0, inward) == Some(bid.0) && difference(top.ask.0, inward) == Some(
            ask.0,
        )),
{
}

/// A fill is followed by a fresh quote on its side, at the target and in the entry size, and by
/// what is missing on the other, each only where the side is allowed.
pub proof fn law_fill_requotes_both_sides(
    state: ScalpState,
    ctx: StrategyContext,
    side: Side,
    price: Price,
    allowed: bool,
)
    ensures
        filled_side_replaced(state, ctx, side, price, allowed) matches Some((next, actions)) ==> {
            let mult = if side is Bid {
                multipliers(ctx.position.size.0).0
            } else {
                multipliers(ctx.position.size.0).1
            };
            &&& !allowed ==> actions.len() == 0 && next == state
            &&& allowed ==> actions.len() == 1 && actions[0] is Quote && {
                let order = actions[0]->Quote_0;
                &&& order.side == side && order.price == price && order.tif is PostOnly
                &&& entry_size(state.config, price, mult) == Some(order.size.0)
                &&& quote_on(next.resting, side) == Some(in_flight(order))
            }
        },
        other_side_topped_up(state, ctx, side, price, allowed) matches Some((next, actions)) ==> {
            &&& !allowed ==> actions.len() == 0 && next == state
            &&& actions.len() > 0 ==> actions.len() == 1 && actions[0] is Quote && {
                let order = actions[0]->Quote_0;
                &&& order.side == side && order.price == price && order.tif is PostOnly
                &&& order.size.0@ > 0
            }
        },
{
}

/// An entry is worth the notional times its multiplier, raised to the minimum notional.
pub proof fn law_entry_size_is_raised(
    config: SpreadScalpConfig,
    price: Price,
    size_multiplier: Decimal,
    raw: Decimal,
    value: Decimal,
)
    requires
        sized(config.notional_per_order, price, size_multiplier, config.step_size) == Some(raw),
        product(raw, price.0) == Some(value),
    ensures
        config.min_notional@ <= 0 || value@ >= config.min_notional@ ==> entry_size(
            config,
            price,
            size_multiplier,
        ) == Some(raw),
        entry_size(config, price, size_multiplier) == raised_size(
            raw,
            price,
            config.min_notional,
            config.step_size,
        ),
{
}

/// A rejection starts the cooldown of its own side, unless the order was refused only because it
/// would have taken; it never touches the cooldown of the other side.
pub proof fn law_rejection_starts_the_cooldown(
    state: ScalpState,
    ctx: StrategyContext,
    intent: QuoteIntent,
    reason: Seq<char>,
)
    ensures
        SpreadScalp::rejection_step(state, ctx, intent, reason) matches Some((next, _)) ==> {
            let would_take = mentions(reason, "-5022"@) || mentions(reason, "Post Only"@);
            &&& intent.side is Bid ==> next.last_reject_ask_ts == state.last_reject_ask_ts
            &&& intent.side is Ask ==> next.last_reject_bid_ts == state.last_reject_bid_ts
            &&& intent.side is Bid && !would_take ==> next.last_reject_bid_ts == Some(ctx.now)
            &&& intent.side is Ask && !would_take ==> next.last_reject_ask_ts == Some(ctx.now)
            &&& would_take ==> next.last_reject_bid_ts == state.last_reject_bid_ts
                && next.last_reject_ask_ts == state.last_reject_ask_ts
        },
{
}

/// A fill ends the cooldown of its own side and leaves that of the other.
pub proof fn law_fill_ends_the_cooldown(
    state: ScalpState,
    ctx: StrategyContext,
    fill: Fill,
    cancels: Seq<Action>,
)
    ensures
        fill_step(state, ctx, fill, cancels) matches Some((next, _)) ==> {
            &&& fill.side is Bid ==> next.last_reject_bid_ts is None && next.last_reject_ask_ts
                == state.last_reject_ask_ts
            &&& fill.side is Ask ==> next.last_reject_ask_ts is None && next.last_reject_bid_ts
                == state.last_reject_bid_ts
        },
{
}

/// A position that the risk policy closes is taken off by an immediate order on the side against
/// it, and everything else is cancelled.
pub proof fn law_policy_closes_at_the_touch(state: ScalpState, ctx: StrategyContext, top: Top)
    requires
        top_of(*ctx.latest_book) == Some(top),
    ensures
        risk_gate(state, ctx) matches Some(Gated::Closing(next, actions)) ==> {
            let order = actions[1]->Quote_0;
            &&& actions.len() == 2 && actions[0] is CancelAll && actions[1] is Quote
            &&& order.tif is IOC && order.size.0 == absolute(ctx.position.size.0)
            &&& ctx.position.size.0@ > 0 ==> order.side is Ask && order.price == top.bid
            &&& ctx.position.size.0@ < 0 ==> order.side is Bid && order.price == top.ask
            &&& ctx.position.size.0@ != 0
            &&& next.resting == none_resting() && !next.quotes_live
        },
{
}

/// A side is brought to its quote by leaving a standing one alone, or by cancelling a known one
/// and quoting anew; what was quoted is then tracked on its side alone.
pub proof fn law_moved_quotes_are_tracked(state: ScalpState, intent: QuoteIntent, other: Side)
    ensures
        moved_to(state, intent) matches Some((next, actions)) ==> {
            &&& actions.len() == 0 ==> next == state
            &&& actions.len() > 0 ==> actions.last() == Action::Quote(intent) && quote_on(
                next.resting,
                intent.side,
            ) == Some(in_flight(intent))
            &&& other != intent.side ==> quote_on(next.resting, other) == quote_on(
                state.resting,
                other,
            )
        },
{
}

/// Dropping a side cancels its known quote and forgets it; a quote whose id is not known yet
/// stays tracked, and the other side is not touched.
pub proof fn law_dropped_sides_are_cancelled(state: ScalpState, side: Side)
    ensures
        ({
            let (next, actions) = side_dropped(state, side);
            &&& quote_on(state.resting, side) matches Some(quote) ==> (quote.id matches Some(id)
                ==> actions == seq![Action::Cancel(id)] && quote_on(next.resting, side) is None)
            &&& quote_on(state.resting, side) matches Some(quote) ==> (quote.id is None
                ==> actions.len() == 0 && next == state)
            &&& quote_on(state.resting, side) is None ==> actions.len() == 0 && next == state
            &&& quote_on(next.resting, opposite(side)) == quote_on(state.resting, opposite(side))
        }),
{
}

/// The closing target is as many ticks from the entry as configured, or one more than the quotes
/// stand off the touch.
pub proof fn law_close_target_clears_the_offset(config: SpreadScalpConfig)
    ensures
        config.close_target_ticks > 0 ==> close_ticks(config) == config.close_target_ticks,
        config.close_target_ticks <= 0 ==> close_ticks(config) == config.quote_offset_ticks + 1,
{
}

/// A requote of one side closes with the whole position where the side reduces it, and enters at
/// the plain size otherwise; an unwanted side is dropped.
pub proof fn law_sides_close_or_enter(
    state: ScalpState,
    ctx: StrategyContext,
    side: Side,
    price: Price,
)
    ensures
        ({
            let size = ctx.position.size.0;
            let reduces = side is Ask && size@ > 0 || side is Bid && size@ < 0;
            &&& side_requoted(state, ctx, side, price, false) == Some(side_dropped(state, side))
            &&& reduces ==> side_requoted(state, ctx, side, price, true) == close_moved(
                state,
                *ctx.symbol,
                side,
                price,
                absolute(size),
            )
            &&& !reduces ==> side_requoted(state, ctx, side, price, true) == entry_moved(
                state,
                *ctx.symbol,
                side,
                price,
                whole(1),
            )
        }),
{
}

} // verus!
