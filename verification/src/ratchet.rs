//! Price-ratchet mean reversion for perpetuals.
//!
//! After each fill an opposite-side limit rests `tp_bps` away from the fill price,
//! so the strategy cycles around a chop range; long and short follow from the last
//! fill alone. With a pyramid configured, an open position is also closed as a
//! whole at a distance from its average entry and deepened step by step.
//!
//! Trends are its enemy, so a position cap and a trend filter suppress the
//! deepening side, and a stop-loss anchored on the first entry of the cycle
//! flattens the position.

use crate::decimal::{
    absolute, decimal, difference, exact_difference, exact_product, exact_sum, floor_of,
    lemma_negated_whole, lemma_pow10_positive, lemma_whole, magnitude, minus, multiplies_exactly,
    negated, over, plus, pow10, product, quotient, sum, times, whole, Decimal,
};
use crate::market::{
    maker_order, taker_order, Fill, MarketEvent, Price, QuoteIntent, Side, Size, Symbol,
};
use crate::quoting::{
    bps_fraction, capped_product, drop_older, elapsed, fires_at, law_pruning_keeps_the_recent,
    lemma_fires_at, lemma_lies_away, lemma_reads_exactly, lies_away, make_post_only_intent,
    measures_exactly, midpoint, moves_exactly, price_away, pruned, reads_exactly,
    saturating_product, try_bps_fraction, try_bps_of, try_midpoint, try_price_away,
};
use crate::risk::{build_close, opposing_touch};
use crate::sizing::{leg_size, stepped, try_leg_size, try_stepped};
use crate::sorting::{sort_ranked, sorted, Ranked};
use crate::strategy::{
    follows, keeps_to, lemma_keeps_to_joined, quotes_on, Action, Strategy, StrategyContext,
};
use std::collections::VecDeque;
use vstd::prelude::*;

verus! {

/// Configuration for [`Ratchet`].
#[derive(Clone, Copy, Debug)]
pub struct RatchetConfig {
    /// Venue tick size.
    pub tick_size: Decimal,
    /// Venue lot step size.
    pub step_size: Decimal,
    /// Venue minimum order notional.
    pub min_notional: Decimal,
    /// Notional per leg.
    pub notional_per_order: Decimal,
    /// Distance of the opposite order from the last fill, in bps.
    pub tp_bps: u32,
    /// Distance from mid of the first straddle, in bps.
    pub initial_offset_bps: u32,
    /// Hard position cap in quote currency: a deepening order that would push the value of
    /// the position past it is suppressed. `0` disables it.
    pub max_position_usdt: Decimal,
    /// Stop-loss distance from the first entry of the cycle, in bps. `0` disables
    /// it.
    pub sl_bps_from_first: u32,
    /// Window of the trend filter, in seconds. `0` disables it.
    pub trend_window_secs: u32,
    /// Move over the window that suppresses a side, in bps. `0` disables it.
    pub trend_filter_bps: u32,
    /// Least time between placements, in ms.
    pub refresh_cooldown_ms: u64,
    /// Distance of each add from the one before, in bps.
    pub pyramid_step_bps: u32,
    /// Most adds beyond the first entry. `0` disables the pyramid.
    pub pyramid_max_adds: u32,
    /// Size multiplier per add, compounding.
    pub pyramid_size_mult: Decimal,
    /// Take-profit distance from the average entry while the pyramid is on, in bps.
    /// `0` means `tp_bps` from the first entry.
    pub tp_bps_from_avg: u32,
}

/// What is known of a position while it is held.
#[derive(Clone, Copy, Debug)]
pub struct Cycle {
    /// Whether the position is long.
    pub side_long: bool,
    /// Average entry when the cycle began.
    pub first_entry_price: Decimal,
    /// Time of the last add, in ns.
    pub last_add_ts_ns: u64,
    /// Adds beyond the first entry.
    pub adds_done: u32,
    /// Price the next add is measured from.
    pub last_add_price: Decimal,
    /// Position size when last seen.
    pub prev_pos_abs: Decimal,
}

/// The state machine.
#[derive(Clone, Copy, Debug)]
pub enum Phase {
    /// No inventory.
    Flat,
    /// A position is open.
    Holding(Cycle),
}

/// Side and price of a placed quote.
#[derive(Clone, Copy, Debug)]
pub struct Placed {
    /// Side.
    pub side: Side,
    /// Price.
    pub price: Price,
}

impl Ranked for Placed {
    open spec fn before(self, other: Placed) -> bool {
        match (self.side, other.side) {
            (Side::Bid, Side::Ask) => true,
            (Side::Ask, Side::Bid) => false,
            _ => self.price.0@ < other.price.0@,
        }
    }

    proof fn asymmetric(a: Placed, b: Placed) {
    }

    proof fn not_before_carries(a: Placed, b: Placed, c: Placed) {
    }

    fn comes_before(&self, other: &Placed) -> (result: bool) {
        match (self.side, other.side) {
            (Side::Bid, Side::Ask) => true,
            (Side::Ask, Side::Bid) => false,
            _ => self.price.0.is_less(other.price.0),
        }
    }
}

/// Price-ratchet strategy.
pub struct Ratchet {
    /// Settings.
    pub config: RatchetConfig,
    /// State machine.
    pub phase: Phase,
    /// Price of the last bid fill.
    pub last_buy_price: Option<Decimal>,
    /// Price of the last ask fill.
    pub last_sell_price: Option<Decimal>,
    /// Mids seen within the trend window, with their times.
    pub mid_samples: VecDeque<(u64, Decimal)>,
    /// Best bid last seen.
    pub last_bid: Option<Price>,
    /// Best ask last seen.
    pub last_ask: Option<Price>,
    /// Time of the last placement, in ns.
    pub last_place_ts_ns: u64,
    /// The quotes last placed, sorted.
    pub last_placed_sig: Vec<Placed>,
}

/// Mathematical content of a [`Ratchet`].
#[verifier::ext_equal]
pub struct RatchetState {
    /// Settings.
    pub config: RatchetConfig,
    /// State machine.
    pub phase: Phase,
    /// Price of the last bid fill.
    pub last_buy_price: Option<Decimal>,
    /// Price of the last ask fill.
    pub last_sell_price: Option<Decimal>,
    /// Mids seen within the trend window, with their times.
    pub mid_samples: Seq<(u64, Decimal)>,
    /// Best bid last seen.
    pub last_bid: Option<Price>,
    /// Best ask last seen.
    pub last_ask: Option<Price>,
    /// Time of the last placement, in ns.
    pub last_place_ts_ns: u64,
    /// The quotes last placed, sorted.
    pub last_placed_sig: Seq<Placed>,
}

impl View for Ratchet {
    type V = RatchetState;

    open spec fn view(&self) -> RatchetState {
        RatchetState {
            config: self.config,
            phase: self.phase,
            last_buy_price: self.last_buy_price,
            last_sell_price: self.last_sell_price,
            mid_samples: self.mid_samples@,
            last_bid: self.last_bid,
            last_ask: self.last_ask,
            last_place_ts_ns: self.last_place_ts_ns,
            last_placed_sig: self.last_placed_sig@,
        }
    }
}

/// Whether the trend over the window suppresses bids and asks.
pub open spec fn trend_suppresses(state: RatchetState, mid: Decimal) -> Option<(bool, bool)> {
    if state.config.trend_window_secs == 0 || state.config.trend_filter_bps == 0
        || state.mid_samples.len() == 0 || state.mid_samples[0].1@ <= 0 {
        Some((false, false))
    } else {
        let then = state.mid_samples[0].1;
        let threshold = whole(state.config.trend_filter_bps as int);
        match times(over(difference(mid, then), Some(then)), Some(whole(10_000))) {
            None => None,
            Some(delta_bps) => Some((delta_bps@ > threshold@, delta_bps@ < negated(threshold)@)),
        }
    }
}

/// A position at the current mid.
#[derive(Clone, Copy, Debug)]
pub struct Exposure {
    /// Signed position size.
    pub size: Decimal,
    /// Its signed value at the mid.
    pub value: Decimal,
    /// The mid.
    pub mid: Decimal,
}

/// The signed position size once an order has filled.
pub open spec fn size_after(held: Exposure, side: Side, size: Decimal) -> Option<Decimal> {
    match side {
        Side::Bid => sum(held.size, size),
        Side::Ask => difference(held.size, size),
    }
}

/// Whether orders on `side` deepen the position, or open one where there is none.
pub open spec fn deepens(held: Exposure, side: Side) -> bool {
    match side {
        Side::Bid => held.size@ >= 0,
        Side::Ask => held.size@ <= 0,
    }
}

/// Whether the position cap suppresses an order: it would deepen a position whose value
/// is at the cap already or would be past it.
pub open spec fn cap_suppresses(config: RatchetConfig, held: Exposure, side: Side, size: Decimal)
    -> Option<bool> {
    let cap = config.max_position_usdt;
    if cap@ <= 0 || !deepens(held, side) {
        Some(false)
    } else if absolute(held.value)@ >= cap@ {
        Some(true)
    } else {
        match times(size_after(held, side, size), Some(held.mid)) {
            None => None,
            Some(after) => Some(absolute(after)@ > cap@),
        }
    }
}

/// Whether a passive order on `side` would rest.
pub open spec fn rests(side: Side, price: Decimal, best_bid: Price, best_ask: Price) -> bool {
    match side {
        Side::Bid => price@ > 0 && price@ < best_ask.0@,
        Side::Ask => price@ > best_bid.0@,
    }
}

/// A passive quote, or nothing where it has no size or is worth less than the
/// minimum notional.
pub open spec fn quote_worth_placing(
    config: RatchetConfig,
    symbol: Symbol,
    side: Side,
    price: Decimal,
    size: Decimal,
) -> Option<Seq<Action>> {
    if size@ <= 0 {
        Some(Seq::empty())
    } else {
        match product(price, size) {
            None => None,
            Some(value) => Some(
                if value@ >= config.min_notional@ {
                    seq![Action::Quote(maker_order(symbol, side, price, size))]
                } else {
                    Seq::empty()
                },
            ),
        }
    }
}

/// A passive quote that keeps to the position cap, or nothing where it does not.
pub open spec fn quote_within_cap(
    config: RatchetConfig,
    symbol: Symbol,
    held: Exposure,
    side: Side,
    price: Decimal,
    size: Decimal,
) -> Option<Seq<Action>> {
    match cap_suppresses(config, held, side, size) {
        None => None,
        Some(true) => Some(Seq::empty()),
        Some(false) => quote_worth_placing(config, symbol, side, price, size),
    }
}

/// A standard leg at `price`, where it is to be placed and keeps to the position cap.
pub open spec fn standard_leg(
    config: RatchetConfig,
    symbol: Symbol,
    held: Exposure,
    side: Side,
    price: Decimal,
    place: bool,
) -> Option<Seq<Action>> {
    if !place {
        Some(Seq::empty())
    } else {
        match leg_size(config.notional_per_order, price, config.step_size) {
            None => None,
            Some(size) => quote_within_cap(config, symbol, held, side, price, size),
        }
    }
}

/// Price `bps` away from `anchor` on `side`, on the tick grid.
pub open spec fn anchored(config: RatchetConfig, anchor: Decimal, side: Side, bps: int) -> Option<
    Decimal,
> {
    stepped(price_away(anchor, side, bps_fraction(bps)), config.tick_size)
}

/// Target of the plain ratchet on one side: away from the last fill on the other
/// side, or from the mid before there was one.
pub open spec fn ratchet_target(state: RatchetState, side: Side, mid: Decimal) -> Option<Decimal> {
    let last = match side {
        Side::Bid => state.last_sell_price,
        Side::Ask => state.last_buy_price,
    };
    match last {
        Some(price) => anchored(state.config, price, side, state.config.tp_bps as int),
        None => anchored(state.config, mid, side, state.config.initial_offset_bps as int),
    }
}

/// The plain ratchet pair.
pub open spec fn ratchet_orders(
    state: RatchetState,
    symbol: Symbol,
    best_bid: Price,
    best_ask: Price,
    held: Exposure,
) -> Option<Seq<Action>> {
    let mid = held.mid;
    let initial = bps_fraction(state.config.initial_offset_bps as int);
    let tp = bps_fraction(state.config.tp_bps as int);
    if initial is None || tp is None {
        None
    } else {
        match (
            ratchet_target(state, Side::Bid, mid),
            ratchet_target(state, Side::Ask, mid),
            trend_suppresses(state, mid),
        ) {
            (Some(bid), Some(ask), Some((trend_bid, trend_ask))) => match (
                standard_leg(
                    state.config,
                    symbol,
                    held,
                    Side::Bid,
                    bid,
                    rests(Side::Bid, bid, best_bid, best_ask) && !trend_bid,
                ),
                standard_leg(
                    state.config,
                    symbol,
                    held,
                    Side::Ask,
                    ask,
                    rests(Side::Ask, ask, best_bid, best_ask) && !trend_ask,
                ),
            ) {
                (Some(bids), Some(asks)) => Some(seq![Action::CancelAll] + bids + asks),
                _ => None,
            },
            _ => None,
        }
    }
}

/// `mult` multiplied up `n` times.
pub open spec fn compounded(mult: Decimal, n: nat) -> Option<Decimal>
    decreases n,
{
    if n == 0 {
        Some(whole(1))
    } else {
        times(compounded(mult, (n - 1) as nat), Some(mult))
    }
}

/// The side that deepens a position.
pub open spec fn deepening_side(side_long: bool) -> Side {
    if side_long {
        Side::Bid
    } else {
        Side::Ask
    }
}

/// The side that closes a position.
pub open spec fn closing_side(side_long: bool) -> Side {
    if side_long {
        Side::Ask
    } else {
        Side::Bid
    }
}

/// The quote that closes the whole position: away from the average entry, or from the
/// first one where no distance from the average is set.
pub open spec fn close_quote(
    state: RatchetState,
    symbol: Symbol,
    best_bid: Price,
    best_ask: Price,
    pos_size: Decimal,
    cycle: Cycle,
    avg_entry: Decimal,
) -> Option<Seq<Action>> {
    let c = state.config;
    let (entry, bps) = if c.tp_bps_from_avg > 0 {
        (avg_entry, c.tp_bps_from_avg)
    } else {
        (cycle.first_entry_price, c.tp_bps)
    };
    let side = closing_side(cycle.side_long);
    match (
        anchored(c, entry, side, bps as int),
        stepped(Some(absolute(pos_size)), c.step_size),
    ) {
        (Some(price), Some(qty)) => if rests(side, price, best_bid, best_ask) {
            quote_worth_placing(c, symbol, side, price, qty)
        } else {
            Some(Seq::empty())
        },
        _ => None,
    }
}

/// The quote on the deepening side that keeps the plain ratchet going.
pub open spec fn chop_quote(
    state: RatchetState,
    symbol: Symbol,
    best_bid: Price,
    best_ask: Price,
    held: Exposure,
    side_long: bool,
    suppressed: bool,
) -> Option<Seq<Action>> {
    let side = deepening_side(side_long);
    let anchor = if side_long {
        state.last_sell_price
    } else {
        state.last_buy_price
    };
    match anchor {
        None => Some(Seq::empty()),
        Some(anchor) => match anchored(state.config, anchor, side, state.config.tp_bps as int) {
            None => None,
            Some(price) => standard_leg(
                state.config,
                symbol,
                held,
                side,
                price,
                rests(side, price, best_bid, best_ask) && !suppressed,
            ),
        },
    }
}

/// Size of the next add at a price.
pub open spec fn add_size(config: RatchetConfig, adds_done: u32, price: Decimal) -> Option<Decimal> {
    match times(
        Some(config.notional_per_order),
        compounded(config.pyramid_size_mult, (adds_done + 1) as nat),
    ) {
        None => None,
        Some(notional) => if price@ > 0 {
            match quotient(notional, price) {
                None => None,
                Some(raw) => stepped(Some(raw), config.step_size),
            }
        } else {
            stepped(Some(whole(0)), config.step_size)
        },
    }
}

/// The quote that deepens the position by one more step.
pub open spec fn add_quote(
    state: RatchetState,
    symbol: Symbol,
    best_bid: Price,
    best_ask: Price,
    held: Exposure,
    cycle: Cycle,
    price: Decimal,
    suppressed: bool,
) -> Option<Seq<Action>> {
    let side = deepening_side(cycle.side_long);
    if cycle.adds_done < state.config.pyramid_max_adds && rests(side, price, best_bid, best_ask)
        && !suppressed {
        match add_size(state.config, cycle.adds_done, price) {
            None => None,
            Some(size) => quote_within_cap(state.config, symbol, held, side, price, size),
        }
    } else {
        Some(Seq::empty())
    }
}

/// The orders while a position is open and the pyramid is on: the close, the chop
/// and the add.
pub open spec fn pyramid_orders(
    state: RatchetState,
    symbol: Symbol,
    best_bid: Price,
    best_ask: Price,
    held: Exposure,
    cycle: Cycle,
    avg_entry: Decimal,
) -> Option<Seq<Action>> {
    let long = cycle.side_long;
    match (
        trend_suppresses(state, held.mid),
        anchored(
            state.config,
            cycle.last_add_price,
            deepening_side(long),
            state.config.pyramid_step_bps as int,
        ),
        bps_fraction(state.config.tp_bps as int),
    ) {
        (Some((trend_bid, trend_ask)), Some(add_price), Some(_)) => {
            let suppressed = if long {
                trend_bid
            } else {
                trend_ask
            };
            match (
                close_quote(state, symbol, best_bid, best_ask, held.size, cycle, avg_entry),
                chop_quote(state, symbol, best_bid, best_ask, held, long, suppressed),
                add_quote(state, symbol, best_bid, best_ask, held, cycle, add_price, suppressed),
            ) {
                (Some(close), Some(chop), Some(add)) => Some(
                    seq![Action::CancelAll] + close + chop + add,
                ),
                _ => None,
            }
        },
        _ => None,
    }
}

/// The state once a mid has been observed.
pub open spec fn observed(state: RatchetState, ts_ns: u64, mid: Decimal) -> RatchetState {
    let samples = state.mid_samples.push((ts_ns, mid));
    RatchetState {
        mid_samples: if state.config.trend_window_secs == 0 {
            seq![(ts_ns, mid)]
        } else {
            pruned(
                samples,
                elapsed(
                    ts_ns,
                    capped_product(state.config.trend_window_secs as int, 1_000_000_000) as u64,
                ),
            )
        },
        ..state
    }
}

/// The phase that the position implies: a new cycle, the end of one, one more add,
/// or a partial close.
pub open spec fn phase_after(state: RatchetState, ctx: StrategyContext) -> Option<Phase> {
    let size = ctx.position.size.0;
    let abs = absolute(size);
    match state.phase {
        Phase::Flat => Some(
            if size@ != 0 {
                Phase::Holding(
                    Cycle {
                        side_long: size@ > 0,
                        first_entry_price: ctx.position.avg_entry.0,
                        last_add_ts_ns: ctx.now.0,
                        adds_done: 0,
                        last_add_price: ctx.position.avg_entry.0,
                        prev_pos_abs: abs,
                    },
                )
            } else {
                Phase::Flat
            },
        ),
        Phase::Holding(cycle) => if size@ == 0 {
            Some(Phase::Flat)
        } else {
            match sum(cycle.prev_pos_abs, decimal(1, 8)) {
                None => None,
                Some(bound) => Some(
                    Phase::Holding(
                        if abs@ > bound@ {
                            let last = if cycle.side_long {
                                state.last_buy_price
                            } else {
                                state.last_sell_price
                            };
                            Cycle {
                                adds_done: if cycle.adds_done == u32::MAX {
                                    u32::MAX
                                } else {
                                    (cycle.adds_done + 1) as u32
                                },
                                last_add_price: match last {
                                    Some(price) => price,
                                    None => cycle.last_add_price,
                                },
                                last_add_ts_ns: ctx.now.0,
                                prev_pos_abs: abs,
                                ..cycle
                            }
                        } else if abs@ < cycle.prev_pos_abs@ {
                            Cycle { prev_pos_abs: abs, ..cycle }
                        } else {
                            cycle
                        },
                    ),
                ),
            }
        },
    }
}

/// Whether the stop-loss of a cycle has been reached.
pub open spec fn stop_reached(config: RatchetConfig, cycle: Cycle, mid: Decimal) -> Option<bool> {
    let drift = if cycle.side_long {
        difference(mid, cycle.first_entry_price)
    } else {
        difference(cycle.first_entry_price, mid)
    };
    if config.sl_bps_from_first == 0 {
        Some(false)
    } else {
        match times(over(drift, Some(cycle.first_entry_price)), Some(whole(10_000))) {
            None => None,
            Some(drift_bps) => Some(
                negated(drift_bps)@ >= whole(config.sl_bps_from_first as int)@,
            ),
        }
    }
}

/// Sides and prices of the quotes among some actions.
pub open spec fn signature(actions: Seq<Action>) -> Seq<Placed>
    decreases actions.len(),
{
    if actions.len() == 0 {
        Seq::empty()
    } else {
        let front = signature(actions.drop_last());
        match actions.last() {
            Action::Quote(intent) => front.push(Placed { side: intent.side, price: intent.price }),
            _ => front,
        }
    }
}

/// Whether two signatures name the same sides and equal prices.
pub open spec fn same_quotes(a: Seq<Placed>, b: Seq<Placed>) -> bool {
    &&& a.len() == b.len()
    &&& forall|i: int|
        0 <= i < a.len() ==> (#[trigger] a[i]).side == b[i].side && a[i].price.0@ == b[i].price.0@
}

/// The candidate orders of the current phase.
pub open spec fn candidates(
    state: RatchetState,
    ctx: StrategyContext,
    best_bid: Price,
    best_ask: Price,
    held: Exposure,
) -> Option<Seq<Action>> {
    match state.phase {
        Phase::Holding(cycle) => if state.config.pyramid_max_adds > 0 {
            pyramid_orders(
                state,
                *ctx.symbol,
                best_bid,
                best_ask,
                held,
                cycle,
                ctx.position.avg_entry.0,
            )
        } else {
            ratchet_orders(state, *ctx.symbol, best_bid, best_ask, held)
        },
        Phase::Flat => ratchet_orders(state, *ctx.symbol, best_bid, best_ask, held),
    }
}

/// Placing the candidates, unless they name what rests already.
pub open spec fn placed(state: RatchetState, now: u64, actions: Seq<Action>) -> (
    RatchetState,
    Seq<Action>,
) {
    let sig = sorted(signature(actions));
    if same_quotes(sig, state.last_placed_sig) {
        (state, Seq::empty())
    } else {
        (RatchetState { last_placed_sig: sig, last_place_ts_ns: now, ..state }, actions)
    }
}

/// Whether the last placement is too recent for another.
pub open spec fn cooling(state: RatchetState, now: u64) -> bool {
    elapsed(now, state.last_place_ts_ns) < capped_product(
        state.config.refresh_cooldown_ms as int,
        1_000_000,
    ) && state.last_place_ts_ns > 0
}

/// An event once the phase agrees with the position.
pub open spec fn phase_step(
    state: RatchetState,
    ctx: StrategyContext,
    best_bid: Price,
    best_ask: Price,
    held: Exposure,
) -> Option<(RatchetState, Seq<Action>)> {
    let stop = match state.phase {
        Phase::Holding(cycle) => stop_reached(state.config, cycle, held.mid),
        Phase::Flat => Some(false),
    };
    match stop {
        None => None,
        Some(true) => {
            let side = closing_side(state.phase->Holding_0.side_long);
            Some(
                (
                    RatchetState { phase: Phase::Flat, last_placed_sig: Seq::empty(), ..state },
                    seq![
                        Action::CancelAll,
                        Action::Quote(
                            taker_order(
                                *ctx.symbol,
                                side,
                                opposing_touch(side, best_bid, best_ask).0,
                                absolute(ctx.position.size.0),
                            ),
                        ),
                    ],
                ),
            )
        },
        Some(false) => if cooling(state, ctx.now.0) {
            Some((state, Seq::empty()))
        } else {
            match candidates(state, ctx, best_bid, best_ask, held) {
                None => None,
                Some(actions) => Some(placed(state, ctx.now.0, actions)),
            }
        },
    }
}

/// An event on known touches; `fresh` tells a book update from the rest.
pub open spec fn touch_step(
    state: RatchetState,
    ctx: StrategyContext,
    best_bid: Price,
    best_ask: Price,
    fresh: bool,
) -> Option<(RatchetState, Seq<Action>)> {
    if best_ask.0@ <= best_bid.0@ {
        Some((state, Seq::empty()))
    } else {
        match midpoint(best_bid.0, best_ask.0) {
            None => None,
            Some(mid) => {
                let seen = if fresh {
                    observed(state, ctx.now.0, mid)
                } else {
                    state
                };
                match (product(ctx.position.size.0, mid), phase_after(seen, ctx)) {
                    (Some(value), Some(phase)) => phase_step(
                        RatchetState { phase, ..seen },
                        ctx,
                        best_bid,
                        best_ask,
                        Exposure { size: ctx.position.size.0, value, mid },
                    ),
                    _ => None,
                }
            },
        }
    }
}

impl Ratchet {
    fn anchored_price(&self, anchor: Decimal, side: Side, bps: u32) -> (result: Option<Decimal>)
        ensures
            result == anchored(self.config, anchor, side, bps as int),
            result is Some ==> {
                let raw = price_away(anchor, side, bps_fraction(bps as int))->0;
                &&& result == stepped(Some(raw), self.config.tick_size)
                &&& anchor@ >= 0 && side is Bid ==> raw@ <= anchor@
                &&& anchor@ >= 0 && side is Ask ==> raw@ >= anchor@
                &&& moves_exactly(anchor, side, bps_fraction(bps as int)->0) ==> lies_away(
                    raw@,
                    anchor@,
                    side,
                    bps as int,
                )
                &&& anchor@ >= 0 && side is Ask && self.config.tick_size@ > 0 && multiplies_exactly(
                    floor_of(quotient(raw, self.config.tick_size)->0),
                    self.config.tick_size,
                ) ==> result->0@ + self.config.tick_size@ > anchor@
            },
    {
        let away = try_bps_fraction(bps)?;
        let raw = try_price_away(anchor, side, away)?;
        proof {
            if moves_exactly(anchor, side, away) {
                lemma_whole(1);
                lemma_lies_away(raw@, anchor@, side, bps as int);
            }
        }
        try_stepped(raw, self.config.tick_size)
    }

    fn trend_suppress(&self, mid_now: Decimal) -> (result: Option<(bool, bool)>)
        ensures
            result == trend_suppresses(self@, mid_now),
            result is Some && self.config.trend_window_secs > 0 && self.config.trend_filter_bps > 0
                && self.mid_samples@.len() > 0 && self.mid_samples@[0].1@ > 0 ==> {
                let then = self.mid_samples@[0].1;
                let bps = self.config.trend_filter_bps as int;
                exact_difference(mid_now, then) && measures_exactly(
                    difference(mid_now, then)->0,
                    then,
                ) ==> {
                    &&& fires_at(then@ - mid_now@, then@, -bps, !(result->0).0)
                    &&& fires_at(mid_now@ - then@, then@, -bps, !(result->0).1)
                }
            },
    {
        if self.config.trend_window_secs == 0 || self.config.trend_filter_bps == 0
            || self.mid_samples.len() == 0 {
            return Some((false, false));
        }
        let mid_then = self.mid_samples[0].1;
        if !mid_then.is_positive() {
            return Some((false, false));
        }
        let delta = mid_now.checked_sub(mid_then)?;
        let delta_bps = try_bps_of(delta, mid_then)?;
        proof {
            let bps = self.config.trend_filter_bps as int;
            lemma_whole(bps);
            lemma_whole(-bps);
            assert((-bps) * pow10(28) == -(bps * pow10(28))) by (nonlinear_arith);
            if measures_exactly(delta, mid_then) {
                lemma_fires_at(delta@, mid_then@, delta_bps@, bps);
                lemma_fires_at(delta@, mid_then@, delta_bps@, -bps);
            }
        }
        let threshold = Decimal::whole(self.config.trend_filter_bps as i64);
        Some((delta_bps.is_more(threshold), delta_bps.is_less(threshold.negate())))
    }

    fn cap_suppress(&self, held: Exposure, side: Side, size: Decimal) -> (result: Option<bool>)
        ensures
            result == cap_suppresses(self.config, held, side, size),
            result is Some && self.config.max_position_usdt@ > 0 ==> {
                let cap = self.config.max_position_usdt@;
                let grows = if side is Bid {
                    held.size@ >= 0
                } else {
                    held.size@ <= 0
                };
                &&& !grows ==> result == Some(false)
                &&& grows && magnitude(held.value@) >= cap ==> result == Some(true)
                &&& grows && magnitude(held.value@) < cap && side is Bid && exact_sum(
                    held.size,
                    size,
                ) && exact_product(sum(held.size, size)->0, held.mid) ==> result == Some(
                    magnitude((held.size@ + size@) * held.mid@) > cap * pow10(28),
                )
                &&& grows && magnitude(held.value@) < cap && side is Ask && exact_difference(
                    held.size,
                    size,
                ) && exact_product(difference(held.size, size)->0, held.mid) ==> result == Some(
                    magnitude((held.size@ - size@) * held.mid@) > cap * pow10(28),
                )
            },
            self.config.max_position_usdt@ <= 0 ==> result == Some(false),
    {
        let cap = self.config.max_position_usdt;
        let deepens = match side {
            Side::Bid => !held.size.is_negative(),
            Side::Ask => !held.size.is_positive(),
        };
        if !cap.is_positive() || !deepens {
            return Some(false);
        }
        if held.value.abs().is_at_least(cap) {
            return Some(true);
        }
        let size_after = match side {
            Side::Bid => held.size.checked_add(size)?,
            Side::Ask => held.size.checked_sub(size)?,
        };
        let after = size_after.checked_mul(held.mid)?;
        proof {
            lemma_pow10_positive(28);
            let (v, m, p) = (after@, cap@, pow10(28));
            assert((magnitude(v) > m) == (magnitude(v * p) > m * p)) by (nonlinear_arith)
                requires
                    p >= 1,
            ;
        }
        Some(after.abs().is_more(cap))
    }

    fn would_rest(side: Side, price: Decimal, best_bid: Price, best_ask: Price) -> (result: bool)
        ensures
            result == rests(side, price, best_bid, best_ask),
    {
        match side {
            Side::Bid => price.is_positive() && price.is_less(best_ask.0),
            Side::Ask => price.is_more(best_bid.0),
        }
    }

    fn push_quote(
        &self,
        actions: &mut Vec<Action>,
        symbol: &Symbol,
        side: Side,
        price: Decimal,
        size: Decimal,
    ) -> (result: Option<()>)
        ensures
            match quote_worth_placing(self.config, *symbol, side, price, size) {
                Some(quote) => result is Some && final(actions)@ =~= old(actions)@ + quote,
                None => result is None,
            },
    {
        if !size.is_positive() {
            return Some(());
        }
        let value = price.checked_mul(size)?;
        if value.is_at_least(self.config.min_notional) {
            actions.push(
                Action::Quote(make_post_only_intent(symbol, side, Price(price), Size(size))),
            );
        }
        Some(())
    }

    fn push_within_cap(
        &self,
        actions: &mut Vec<Action>,
        symbol: &Symbol,
        held: Exposure,
        side: Side,
        price: Decimal,
        size: Decimal,
    ) -> (result: Option<()>)
        ensures
            match quote_within_cap(self.config, *symbol, held, side, price, size) {
                Some(quote) => result is Some && final(actions)@ =~= old(actions)@ + quote,
                None => result is None,
            },
    {
        if self.cap_suppress(held, side, size)? {
            return Some(());
        }
        self.push_quote(actions, symbol, side, price, size)
    }

    fn push_leg(
        &self,
        actions: &mut Vec<Action>,
        symbol: &Symbol,
        held: Exposure,
        side: Side,
        price: Decimal,
        place: bool,
    ) -> (result: Option<()>)
        ensures
            match standard_leg(self.config, *symbol, held, side, price, place) {
                Some(quote) => result is Some && final(actions)@ =~= old(actions)@ + quote,
                None => result is None,
            },
    {
        if !place {
            return Some(());
        }
        let size = try_leg_size(self.config.notional_per_order, price, self.config.step_size)?;
        self.push_within_cap(actions, symbol, held, side, price, size)
    }

    fn build_orders(
        &self,
        symbol: &Symbol,
        best_bid: Price,
        best_ask: Price,
        held: Exposure,
    ) -> (result: Option<Vec<Action>>)
        ensures
            match ratchet_orders(self@, *symbol, best_bid, best_ask, held) {
                Some(actions) => result is Some && result->0@ =~= actions,
                None => result is None,
            },
    {
        let c = self.config;
        let mid_now = held.mid;
        let _initial = Decimal::whole(c.initial_offset_bps as i64).checked_div(
            Decimal::whole(10_000),
        )?;
        let _tp = Decimal::whole(c.tp_bps as i64).checked_div(Decimal::whole(10_000))?;
        let bid = match self.last_sell_price {
            Some(price) => self.anchored_price(price, Side::Bid, c.tp_bps)?,
            None => self.anchored_price(mid_now, Side::Bid, c.initial_offset_bps)?,
        };
        let ask = match self.last_buy_price {
            Some(price) => self.anchored_price(price, Side::Ask, c.tp_bps)?,
            None => self.anchored_price(mid_now, Side::Ask, c.initial_offset_bps)?,
        };
        let (trend_bid, trend_ask) = self.trend_suppress(mid_now)?;
        let place_bid = Self::would_rest(Side::Bid, bid, best_bid, best_ask) && !trend_bid;
        let place_ask = Self::would_rest(Side::Ask, ask, best_bid, best_ask) && !trend_ask;
        let mut actions = vec![Action::CancelAll];
        self.push_leg(&mut actions, symbol, held, Side::Bid, bid, place_bid)?;
        self.push_leg(&mut actions, symbol, held, Side::Ask, ask, place_ask)?;
        Some(actions)
    }

    fn compound(mult: Decimal, n: u32) -> (result: Option<Decimal>)
        ensures
            result == compounded(mult, n as nat),
    {
        let mut total = Decimal::one();
        let mut i: u32 = 0;
        while i < n
            invariant
                i <= n,
                compounded(mult, i as nat) == Some(total),
            decreases n - i,
        {
            match total.checked_mul(mult) {
                Some(next) => {
                    total = next;
                },
                None => {
                    proof {
                        lemma_compounded_fails(mult, i as nat + 1, n as nat);
                    }
                    return None;
                },
            }
            i = i + 1;
        }
        Some(total)
    }

    fn push_close(
        &self,
        actions: &mut Vec<Action>,
        symbol: &Symbol,
        best_bid: Price,
        best_ask: Price,
        pos_size: Decimal,
        cycle: Cycle,
        avg_entry: Decimal,
    ) -> (result: Option<()>)
        ensures
            match close_quote(self@, *symbol, best_bid, best_ask, pos_size, cycle, avg_entry) {
                Some(quote) => result is Some && final(actions)@ =~= old(actions)@ + quote,
                None => result is None,
            },
    {
        let c = self.config;
        let (entry, bps): (Decimal, u32) = if c.tp_bps_from_avg > 0 {
            (avg_entry, c.tp_bps_from_avg)
        } else {
            (cycle.first_entry_price, c.tp_bps)
        };
        let side = if cycle.side_long {
            Side::Ask
        } else {
            Side::Bid
        };
        let price = self.anchored_price(entry, side, bps)?;
        let qty = try_stepped(pos_size.abs(), c.step_size)?;
        if Self::would_rest(side, price, best_bid, best_ask) {
            self.push_quote(actions, symbol, side, price, qty)
        } else {
            Some(())
        }
    }

    fn push_chop(
        &self,
        actions: &mut Vec<Action>,
        symbol: &Symbol,
        best_bid: Price,
        best_ask: Price,
        held: Exposure,
        side_long: bool,
        suppressed: bool,
    ) -> (result: Option<()>)
        ensures
            match chop_quote(self@, *symbol, best_bid, best_ask, held, side_long, suppressed) {
                Some(quote) => result is Some && final(actions)@ =~= old(actions)@ + quote,
                None => result is None,
            },
    {
        let (anchor, side) = if side_long {
            (self.last_sell_price, Side::Bid)
        } else {
            (self.last_buy_price, Side::Ask)
        };
        match anchor {
            None => Some(()),
            Some(anchor) => {
                let price = self.anchored_price(anchor, side, self.config.tp_bps)?;
                let place = Self::would_rest(side, price, best_bid, best_ask) && !suppressed;
                self.push_leg(actions, symbol, held, side, price, place)
            },
        }
    }

    fn push_add(
        &self,
        actions: &mut Vec<Action>,
        symbol: &Symbol,
        best_bid: Price,
        best_ask: Price,
        held: Exposure,
        cycle: Cycle,
        price: Decimal,
        suppressed: bool,
    ) -> (result: Option<()>)
        ensures
            match add_quote(self@, *symbol, best_bid, best_ask, held, cycle, price, suppressed) {
                Some(quote) => result is Some && final(actions)@ =~= old(actions)@ + quote,
                None => result is None,
            },
    {
        let side = if cycle.side_long {
            Side::Bid
        } else {
            Side::Ask
        };
        if cycle.adds_done < self.config.pyramid_max_adds && Self::would_rest(
            side,
            price,
            best_bid,
            best_ask,
        ) && !suppressed {
            let mult = Self::compound(self.config.pyramid_size_mult, cycle.adds_done + 1)?;
            let notional = self.config.notional_per_order.checked_mul(mult)?;
            let raw = if price.is_positive() {
                notional.checked_div(price)?
            } else {
                Decimal::zero()
            };
            let size = try_stepped(raw, self.config.step_size)?;
            self.push_within_cap(actions, symbol, held, side, price, size)
        } else {
            Some(())
        }
    }

    fn build_pyramid_orders(
        &self,
        symbol: &Symbol,
        best_bid: Price,
        best_ask: Price,
        held: Exposure,
        cycle: Cycle,
        avg_entry: Decimal,
    ) -> (result: Option<Vec<Action>>)
        ensures
            match pyramid_orders(self@, *symbol, best_bid, best_ask, held, cycle, avg_entry) {
                Some(actions) => result is Some && result->0@ =~= actions,
                None => result is None,
            },
    {
        let long = cycle.side_long;
        let side = if long {
            Side::Bid
        } else {
            Side::Ask
        };
        let _chop_tp = Decimal::whole(self.config.tp_bps as i64).checked_div(
            Decimal::whole(10_000),
        )?;
        let add_price = self.anchored_price(
            cycle.last_add_price,
            side,
            self.config.pyramid_step_bps,
        )?;
        let (trend_bid, trend_ask) = self.trend_suppress(held.mid)?;
        let suppressed = if long {
            trend_bid
        } else {
            trend_ask
        };
        let mut actions = vec![Action::CancelAll];
        self.push_close(&mut actions, symbol, best_bid, best_ask, held.size, cycle, avg_entry)?;
        self.push_chop(&mut actions, symbol, best_bid, best_ask, held, long, suppressed)?;
        self.push_add(
            &mut actions,
            symbol,
            best_bid,
            best_ask,
            held,
            cycle,
            add_price,
            suppressed,
        )?;
        Some(actions)
    }

    fn observe_mid(&mut self, ts_ns: u64, mid: Decimal)
        ensures
            final(self)@ == observed(old(self)@, ts_ns, mid),
    {
        self.mid_samples.push_back((ts_ns, mid));
        if self.config.trend_window_secs == 0 {
            while self.mid_samples.len() > 1
                invariant
                    self.mid_samples@.len() >= 1,
                    self.mid_samples@.last() == (ts_ns, mid),
                    self@ == (RatchetState { mid_samples: self.mid_samples@, ..old(self)@ }),
                decreases self.mid_samples@.len(),
            {
                let ghost before = self.mid_samples@;
                let _ = self.mid_samples.pop_front();
                assert(self.mid_samples@ =~= before.drop_first());
            }
            assert(self.mid_samples@ =~= seq![(ts_ns, mid)]);
            return;
        }
        let window_ns: u64 = saturating_product(
            self.config.trend_window_secs as u64,
            1_000_000_000,
        );
        let cutoff: u64 = ts_ns.saturating_sub(window_ns);
        drop_older(&mut self.mid_samples, cutoff);
    }

    fn next_phase(&self, ctx: &StrategyContext<'_>) -> (result: Option<Phase>)
        ensures
            result == phase_after(self@, *ctx),
    {
        let size = ctx.position.size.0;
        let abs = size.abs();
        match self.phase {
            Phase::Flat => {
                if size.is_zero() {
                    return Some(Phase::Flat);
                }
                Some(
                    Phase::Holding(
                        Cycle {
                            side_long: size.is_positive(),
                            first_entry_price: ctx.position.avg_entry.0,
                            last_add_ts_ns: ctx.now.0,
                            adds_done: 0,
                            last_add_price: ctx.position.avg_entry.0,
                            prev_pos_abs: abs,
                        },
                    ),
                )
            },
            Phase::Holding(cycle) => {
                if size.is_zero() {
                    return Some(Phase::Flat);
                }
                let mut next = cycle;
                let bound = cycle.prev_pos_abs.checked_add(Decimal::new(1, 8))?;
                if abs.is_more(bound) {
                    next.adds_done = cycle.adds_done.saturating_add(1);
                    let last = if cycle.side_long {
                        self.last_buy_price
                    } else {
                        self.last_sell_price
                    };
                    if let Some(price) = last {
                        next.last_add_price = price;
                    }
                    next.last_add_ts_ns = ctx.now.0;
                    next.prev_pos_abs = abs;
                } else if abs.is_less(cycle.prev_pos_abs) {
                    next.prev_pos_abs = abs;
                }
                Some(Phase::Holding(next))
            },
        }
    }

    fn stop_hit(&self, cycle: Cycle, mid: Decimal) -> (result: Option<bool>)
        ensures
            result == stop_reached(self.config, cycle, mid),
            self.config.sl_bps_from_first == 0 ==> result == Some(false),
            result is Some && self.config.sl_bps_from_first > 0 && cycle.first_entry_price@ > 0 ==> {
                let entry = cycle.first_entry_price;
                let bps = self.config.sl_bps_from_first as int;
                &&& cycle.side_long && exact_difference(mid, entry) && measures_exactly(
                    difference(mid, entry)->0,
                    entry,
                ) ==> fires_at(entry@ - mid@, entry@, bps, result->0)
                &&& !cycle.side_long && exact_difference(entry, mid) && measures_exactly(
                    difference(entry, mid)->0,
                    entry,
                ) ==> fires_at(mid@ - entry@, entry@, bps, result->0)
            },
    {
        if self.config.sl_bps_from_first == 0 {
            return Some(false);
        }
        let entry = cycle.first_entry_price;
        let drift = if cycle.side_long {
            mid.checked_sub(entry)?
        } else {
            entry.checked_sub(mid)?
        };
        let drift_bps = try_bps_of(drift, entry)?;
        proof {
            let bps = self.config.sl_bps_from_first as int;
            lemma_whole(bps);
            lemma_whole(-bps);
            assert((-bps) * pow10(28) == -(bps * pow10(28))) by (nonlinear_arith);
            if entry@ > 0 && measures_exactly(drift, entry) {
                lemma_fires_at(drift@, entry@, drift_bps@, -bps);
            }
        }
        Some(
            drift_bps.negate().is_at_least(
                Decimal::whole(self.config.sl_bps_from_first as i64),
            ),
        )
    }

    fn signature_of(actions: &Vec<Action>) -> (result: Vec<Placed>)
        ensures
            result@ == signature(actions@),
    {
        let mut out: Vec<Placed> = Vec::new();
        let mut i: usize = 0;
        while i < actions.len()
            invariant
                i <= actions@.len(),
                out@ == signature(actions@.take(i as int)),
            decreases actions@.len() - i,
        {
            assert(actions@.take(i + 1).drop_last() =~= actions@.take(i as int));
            if let Action::Quote(intent) = &actions[i] {
                out.push(Placed { side: intent.side, price: intent.price });
            }
            i = i + 1;
        }
        assert(actions@.take(i as int) =~= actions@);
        out
    }

    fn same(a: &Vec<Placed>, b: &Vec<Placed>) -> (result: bool)
        ensures
            result == same_quotes(a@, b@),
    {
        if a.len() != b.len() {
            return false;
        }
        let mut i: usize = 0;
        while i < a.len()
            invariant
                a@.len() == b@.len(),
                i <= a@.len(),
                forall|k: int|
                    0 <= k < i ==> (#[trigger] a@[k]).side == b@[k].side && a@[k].price.0@
                        == b@[k].price.0@,
            decreases a@.len() - i,
        {
            if a[i].side != b[i].side || !a[i].price.0.equals(b[i].price.0) {
                assert(!(a@[i as int].side == b@[i as int].side && a@[i as int].price.0@
                    == b@[i as int].price.0@));
                return false;
            }
            i = i + 1;
        }
        true
    }

    fn on_phase(
        &mut self,
        ctx: &StrategyContext<'_>,
        best_bid: Price,
        best_ask: Price,
        held: Exposure,
    ) -> (result: Option<Vec<Action>>)
        ensures
            follows(
                phase_step(old(self)@, *ctx, best_bid, best_ask, held),
                result,
                final(self)@,
            ),
    {
        if let Phase::Holding(cycle) = self.phase {
            if self.stop_hit(cycle, held.mid)? {
                let qty = Size(ctx.position.size.0.abs());
                let side = if cycle.side_long {
                    Side::Ask
                } else {
                    Side::Bid
                };
                self.phase = Phase::Flat;
                self.last_placed_sig = Vec::new();
                return Some(
                    vec![
                        Action::CancelAll,
                        build_close(ctx.symbol, side, qty, best_bid, best_ask),
                    ],
                );
            }
        }
        let cooldown_ns: u64 = saturating_product(self.config.refresh_cooldown_ms, 1_000_000);
        let waited_ns: u64 = ctx.now.0.saturating_sub(self.last_place_ts_ns);
        if waited_ns < cooldown_ns && self.last_place_ts_ns > 0 {
            return Some(Vec::new());
        }
        let actions = match self.phase {
            Phase::Holding(cycle) => {
                if self.config.pyramid_max_adds > 0 {
                    self.build_pyramid_orders(
                        ctx.symbol,
                        best_bid,
                        best_ask,
                        held,
                        cycle,
                        ctx.position.avg_entry.0,
                    )?
                } else {
                    self.build_orders(ctx.symbol, best_bid, best_ask, held)?
                }
            },
            Phase::Flat => self.build_orders(ctx.symbol, best_bid, best_ask, held)?,
        };
        let sig = sort_ranked(&Self::signature_of(&actions));
        if Self::same(&sig, &self.last_placed_sig) {
            return Some(Vec::new());
        }
        self.last_placed_sig = sig;
        self.last_place_ts_ns = ctx.now.0;
        Some(actions)
    }

    fn on_touches(
        &mut self,
        ctx: &StrategyContext<'_>,
        best_bid: Price,
        best_ask: Price,
        fresh: bool,
    ) -> (result: Option<Vec<Action>>)
        ensures
            follows(
                touch_step(old(self)@, *ctx, best_bid, best_ask, fresh),
                result,
                final(self)@,
            ),
    {
        if best_ask.0.is_at_most(best_bid.0) {
            return Some(Vec::new());
        }
        let mid = try_midpoint(best_bid.0, best_ask.0)?;
        if fresh {
            self.observe_mid(ctx.now.0, mid);
        }
        let size = ctx.position.size.0;
        let value = size.checked_mul(mid)?;
        self.phase = self.next_phase(ctx)?;
        self.on_phase(ctx, best_bid, best_ask, Exposure { size, value, mid })
    }
}

proof fn lemma_compounded_fails(mult: Decimal, n: nat, m: nat)
    requires
        n <= m,
        compounded(mult, n) is None,
    ensures
        compounded(mult, m) is None,
    decreases m - n,
{
    if n < m {
        lemma_compounded_fails(mult, n + 1, m);
    }
}

impl Strategy for Ratchet {
    type Config = RatchetConfig;

    open spec fn initial(config: RatchetConfig) -> Option<RatchetState> {
        Some(
            RatchetState {
                config,
                phase: Phase::Flat,
                last_buy_price: None,
                last_sell_price: None,
                mid_samples: Seq::empty(),
                last_bid: None,
                last_ask: None,
                last_place_ts_ns: 0,
                last_placed_sig: Seq::empty(),
            },
        )
    }

    open spec fn event_step(state: RatchetState, ctx: StrategyContext, event: MarketEvent) -> Option<
        (RatchetState, Seq<Action>),
    > {
        match event {
            MarketEvent::Fill(fill) => Some(
                (
                    match fill.side {
                        Side::Bid => RatchetState { last_buy_price: Some(fill.price.0), ..state },
                        Side::Ask => RatchetState { last_sell_price: Some(fill.price.0), ..state },
                    },
                    Seq::empty(),
                ),
            ),
            MarketEvent::BookUpdate { snapshot } => if snapshot.bids@.len() == 0
                || snapshot.asks@.len() == 0 {
                Some((state, Seq::empty()))
            } else {
                let bid = snapshot.bids@[0].price;
                let ask = snapshot.asks@[0].price;
                touch_step(
                    RatchetState { last_bid: Some(bid), last_ask: Some(ask), ..state },
                    ctx,
                    bid,
                    ask,
                    true,
                )
            },
            _ => match (state.last_bid, state.last_ask) {
                (Some(bid), Some(ask)) => touch_step(state, ctx, bid, ask, false),
                _ => Some((state, Seq::empty())),
            },
        }
    }

    open spec fn rejection_step(
        state: RatchetState,
        ctx: StrategyContext,
        intent: QuoteIntent,
        reason: Seq<char>,
    ) -> Option<(RatchetState, Seq<Action>)> {
        Some((state, Seq::empty()))
    }

    fn try_new(config: RatchetConfig) -> (result: Option<Ratchet>) {
        Some(
            Ratchet {
                config,
                phase: Phase::Flat,
                last_buy_price: None,
                last_sell_price: None,
                mid_samples: VecDeque::new(),
                last_bid: None,
                last_ask: None,
                last_place_ts_ns: 0,
                last_placed_sig: Vec::new(),
            },
        )
    }

    fn name(&self) -> (result: &str)
        ensures
            result@ == "ratchet"@,
    {
        "ratchet"
    }

    fn try_on_event(&mut self, ctx: &StrategyContext<'_>, event: &MarketEvent) -> (result: Option<
        Vec<Action>,
    >) {
        match event {
            MarketEvent::Fill(fill) => {
                match fill.side {
                    Side::Bid => {
                        self.last_buy_price = Some(fill.price.0);
                    },
                    Side::Ask => {
                        self.last_sell_price = Some(fill.price.0);
                    },
                }
                Some(Vec::new())
            },
            MarketEvent::BookUpdate { snapshot } => {
                if snapshot.bids.len() == 0 || snapshot.asks.len() == 0 {
                    return Some(Vec::new());
                }
                let bid = snapshot.bids[0].price;
                let ask = snapshot.asks[0].price;
                self.last_bid = Some(bid);
                self.last_ask = Some(ask);
                self.on_touches(ctx, bid, ask, true)
            },
            _ => match (self.last_bid, self.last_ask) {
                (Some(bid), Some(ask)) => self.on_touches(ctx, bid, ask, false),
                _ => Some(Vec::new()),
            },
        }
    }

    fn try_on_quote_rejected(
        &mut self,
        ctx: &StrategyContext<'_>,
        intent: &QuoteIntent,
        reason: &str,
    ) -> (result: Option<Vec<Action>>) {
        Some(Vec::new())
    }

    fn on_notional_updated(
        &mut self,
        ctx: &StrategyContext<'_>,
        notional_per_order: Decimal,
    ) -> (result: Vec<Action>)
        ensures
            result@ == Seq::<Action>::empty(),
            final(self)@ == (if notional_per_order@ > 0 {
                RatchetState {
                    config: RatchetConfig { notional_per_order, ..old(self)@.config },
                    ..old(self)@
                }
            } else {
                old(self)@
            }),
    {
        if notional_per_order.is_positive() {
            self.config.notional_per_order = notional_per_order;
        }
        Vec::new()
    }

    fn on_max_position_updated(
        &mut self,
        ctx: &StrategyContext<'_>,
        max_position_usdt: Decimal,
    ) -> (result: Vec<Action>)
        ensures
            result@ == Seq::<Action>::empty(),
            final(self)@ == (if max_position_usdt@ > 0 {
                RatchetState {
                    config: RatchetConfig { max_position_usdt, ..old(self)@.config },
                    ..old(self)@
                }
            } else {
                old(self)@
            }),
    {
        if max_position_usdt.is_positive() {
            self.config.max_position_usdt = max_position_usdt;
        }
        Vec::new()
    }
}

/// Whether every quote on `side` among `actions` keeps the position within its cap once
/// it has filled.
pub open spec fn stays_within_cap(
    config: RatchetConfig,
    held: Exposure,
    side: Side,
    actions: Seq<Action>,
) -> bool {
    forall|i: int|
        0 <= i < actions.len() ==> (#[trigger] actions[i] matches Action::Quote(order)
            ==> order.side == side ==> absolute(held.value)@ < config.max_position_usdt@ && (times(
            size_after(held, side, order.size.0),
            Some(held.mid),
        ) matches Some(after) && absolute(after)@ <= config.max_position_usdt@))
}

/// With the plain ratchet, no quote deepens a position at its cap, and none would push the
/// value of the position past its cap.
pub proof fn law_cap_stops_deepening(
    state: RatchetState,
    symbol: Symbol,
    best_bid: Price,
    best_ask: Price,
    held: Exposure,
    side: Side,
)
    requires
        state.config.max_position_usdt@ > 0,
        deepens(held, side),
    ensures
        ratchet_orders(state, symbol, best_bid, best_ask, held) matches Some(actions)
            ==> stays_within_cap(state.config, held, side, actions),
{
}

/// With the pyramid on, neither the chop nor the add deepens a position at its cap, and
/// neither would push the value of the position past its cap.
pub proof fn law_cap_stops_the_pyramid(
    state: RatchetState,
    symbol: Symbol,
    best_bid: Price,
    best_ask: Price,
    held: Exposure,
    cycle: Cycle,
    avg_entry: Decimal,
)
    requires
        state.config.max_position_usdt@ > 0,
        deepens(held, deepening_side(cycle.side_long)),
    ensures
        pyramid_orders(state, symbol, best_bid, best_ask, held, cycle, avg_entry) matches Some(
            actions,
        ) ==> stays_within_cap(state.config, held, deepening_side(cycle.side_long), actions),
{
}

/// With the pyramid on and the trend against it or the position at its cap, the only
/// quote left is the one that closes.
pub proof fn law_suppressed_pyramid_only_closes(
    state: RatchetState,
    symbol: Symbol,
    best_bid: Price,
    best_ask: Price,
    held: Exposure,
    cycle: Cycle,
    avg_entry: Decimal,
)
    requires
        pyramid_orders(state, symbol, best_bid, best_ask, held, cycle, avg_entry) is Some,
        ({
            let (trend_bid, trend_ask) = trend_suppresses(state, held.mid)->0;
            let cap = state.config.max_position_usdt;
            ||| cycle.side_long && trend_bid
            ||| !cycle.side_long && trend_ask
            ||| cap@ > 0 && absolute(held.value)@ >= cap@ && deepens(
                held,
                deepening_side(cycle.side_long),
            )
        }),
    ensures
        !quotes_on(
            pyramid_orders(state, symbol, best_bid, best_ask, held, cycle, avg_entry)->0,
            deepening_side(cycle.side_long),
        ),
{
}

/// The first entry of a cycle, the anchor of its stop-loss, does not move while the
/// position stays open.
pub proof fn law_stop_anchor_is_fixed(state: RatchetState, ctx: StrategyContext)
    requires
        phase_after(state, ctx) is Some,
    ensures
        match (state.phase, phase_after(state, ctx)->0) {
            (Phase::Holding(before), Phase::Holding(after)) => after.first_entry_price
                == before.first_entry_price && after.side_long == before.side_long
                && after.adds_done >= before.adds_done,
            _ => true,
        },
{
}

/// Placing the same quotes twice in a row emits them once.
pub proof fn law_same_orders_are_placed_once(state: RatchetState, now: u64, later: u64, actions: Seq<
    Action,
>)
    ensures
        placed(placed(state, now, actions).0, later, actions).1 == Seq::<Action>::empty(),
{
}

proof fn lemma_ratchet_keeps_to(
    state: RatchetState,
    symbol: Symbol,
    best_bid: Price,
    best_ask: Price,
    held: Exposure,
)
    ensures
        ratchet_orders(state, symbol, best_bid, best_ask, held) matches Some(actions)
            ==> keeps_to(actions, symbol),
{
    let c = state.config;
    let mid = held.mid;
    let all = seq![Action::CancelAll];
    match (
        ratchet_target(state, Side::Bid, mid),
        ratchet_target(state, Side::Ask, mid),
        trend_suppresses(state, mid),
    ) {
        (Some(bid), Some(ask), Some((trend_bid, trend_ask))) => {
            let place_bid = rests(Side::Bid, bid, best_bid, best_ask) && !trend_bid;
            let place_ask = rests(Side::Ask, ask, best_bid, best_ask) && !trend_ask;
            match (
                standard_leg(c, symbol, held, Side::Bid, bid, place_bid),
                standard_leg(c, symbol, held, Side::Ask, ask, place_ask),
            ) {
                (Some(bids), Some(asks)) => {
                    lemma_keeps_to_joined(all, bids, symbol);
                    lemma_keeps_to_joined(all + bids, asks, symbol);
                },
                _ => {},
            }
        },
        _ => {},
    }
}

proof fn lemma_pyramid_keeps_to(
    state: RatchetState,
    symbol: Symbol,
    best_bid: Price,
    best_ask: Price,
    held: Exposure,
    cycle: Cycle,
    avg_entry: Decimal,
)
    ensures
        pyramid_orders(state, symbol, best_bid, best_ask, held, cycle, avg_entry) matches Some(
            actions,
        ) ==> keeps_to(actions, symbol),
{
    let long = cycle.side_long;
    let all = seq![Action::CancelAll];
    let step_bps = state.config.pyramid_step_bps as int;
    match (
        trend_suppresses(state, held.mid),
        anchored(state.config, cycle.last_add_price, deepening_side(long), step_bps),
    ) {
        (Some((trend_bid, trend_ask)), Some(add_price)) => {
            let suppressed = if long {
                trend_bid
            } else {
                trend_ask
            };
            match (
                close_quote(state, symbol, best_bid, best_ask, held.size, cycle, avg_entry),
                chop_quote(state, symbol, best_bid, best_ask, held, long, suppressed),
                add_quote(state, symbol, best_bid, best_ask, held, cycle, add_price, suppressed),
            ) {
                (Some(close), Some(chop), Some(add)) => {
                    lemma_keeps_to_joined(all, close, symbol);
                    lemma_keeps_to_joined(all + close, chop, symbol);
                    lemma_keeps_to_joined(all + close + chop, add, symbol);
                },
                _ => {},
            }
        },
        _ => {},
    }
}

proof fn lemma_phase_keeps_to(
    state: RatchetState,
    ctx: StrategyContext,
    best_bid: Price,
    best_ask: Price,
    held: Exposure,
)
    ensures
        phase_step(state, ctx, best_bid, best_ask, held) matches Some((_, actions)) ==> keeps_to(
            actions,
            *ctx.symbol,
        ),
{
    lemma_ratchet_keeps_to(state, *ctx.symbol, best_bid, best_ask, held);
    if let Phase::Holding(cycle) = state.phase {
        lemma_pyramid_keeps_to(
            state,
            *ctx.symbol,
            best_bid,
            best_ask,
            held,
            cycle,
            ctx.position.avg_entry.0,
        );
    }
}

proof fn lemma_touch_keeps_to(
    state: RatchetState,
    ctx: StrategyContext,
    best_bid: Price,
    best_ask: Price,
    fresh: bool,
)
    ensures
        touch_step(state, ctx, best_bid, best_ask, fresh) matches Some((_, actions)) ==> keeps_to(
            actions,
            *ctx.symbol,
        ),
{
    if let Some(mid) = midpoint(best_bid.0, best_ask.0) {
        let seen = if fresh {
            observed(state, ctx.now.0, mid)
        } else {
            state
        };
        match (product(ctx.position.size.0, mid), phase_after(seen, ctx)) {
            (Some(value), Some(phase)) => {
                let current = RatchetState { phase, ..seen };
                let held = Exposure { size: ctx.position.size.0, value, mid };
                lemma_phase_keeps_to(current, ctx, best_bid, best_ask, held);
            },
            _ => {},
        }
    }
}

/// No event and no rejection calls for an order in another instrument.
pub proof fn law_quotes_its_instrument(
    state: RatchetState,
    ctx: StrategyContext,
    event: MarketEvent,
    intent: QuoteIntent,
    reason: Seq<char>,
)
    ensures
        Ratchet::event_step(state, ctx, event) matches Some((_, actions)) ==> keeps_to(
            actions,
            *ctx.symbol,
        ),
        Ratchet::rejection_step(state, ctx, intent, reason) matches Some((_, actions)) ==> keeps_to(
            actions,
            *ctx.symbol,
        ),
{
    match event {
        MarketEvent::BookUpdate { snapshot } => {
            if snapshot.bids@.len() > 0 && snapshot.asks@.len() > 0 {
                let bid = snapshot.bids@[0].price;
                let ask = snapshot.asks@[0].price;
                let seen = RatchetState { last_bid: Some(bid), last_ask: Some(ask), ..state };
                lemma_touch_keeps_to(seen, ctx, bid, ask, true);
            }
        },
        _ => {
            if state.last_bid is Some && state.last_ask is Some {
                lemma_touch_keeps_to(state, ctx, state.last_bid->0, state.last_ask->0, false);
            }
        },
    }
}

/// Once an ask has filled, the bid of the plain ratchet lies `tp_bps` below the price of that
/// fill on the tick grid, whatever the last bid fill and the mid are.
pub proof fn law_bid_ratchets_off_the_last_sale(
    state: RatchetState,
    sold: Decimal,
    bought: Option<Decimal>,
    mid: Decimal,
    other_mid: Decimal,
)
    ensures
        ({
            let filled = RatchetState { last_sell_price: Some(sold), ..state };
            let other = RatchetState { last_buy_price: bought, ..filled };
            let bid = ratchet_target(filled, Side::Bid, mid);
            &&& bid == ratchet_target(other, Side::Bid, other_mid)
            &&& bid == stepped(
                times(
                    Some(sold),
                    minus(Some(whole(1)), quotient(whole(state.config.tp_bps as int), whole(10_000))),
                ),
                state.config.tick_size,
            )
        }),
{
}

/// Once a bid has filled, the ask of the plain ratchet lies `tp_bps` above the price of that
/// fill on the tick grid, whatever the last ask fill and the mid are.
pub proof fn law_ask_ratchets_off_the_last_purchase(
    state: RatchetState,
    bought: Decimal,
    sold: Option<Decimal>,
    mid: Decimal,
    other_mid: Decimal,
)
    ensures
        ({
            let filled = RatchetState { last_buy_price: Some(bought), ..state };
            let other = RatchetState { last_sell_price: sold, ..filled };
            let ask = ratchet_target(filled, Side::Ask, mid);
            &&& ask == ratchet_target(other, Side::Ask, other_mid)
            &&& ask == stepped(
                times(
                    Some(bought),
                    plus(Some(whole(1)), quotient(whole(state.config.tp_bps as int), whole(10_000))),
                ),
                state.config.tick_size,
            )
        }),
{
}

/// Before a side has filled, the other side is quoted `initial_offset_bps` from the mid.
pub proof fn law_ratchet_starts_around_the_mid(state: RatchetState, mid: Decimal)
    ensures
        state.last_sell_price is None ==> ratchet_target(state, Side::Bid, mid) == stepped(
            times(
                Some(mid),
                minus(
                    Some(whole(1)),
                    quotient(whole(state.config.initial_offset_bps as int), whole(10_000)),
                ),
            ),
            state.config.tick_size,
        ),
        state.last_buy_price is None ==> ratchet_target(state, Side::Ask, mid) == stepped(
            times(
                Some(mid),
                plus(
                    Some(whole(1)),
                    quotient(whole(state.config.initial_offset_bps as int), whole(10_000)),
                ),
            ),
            state.config.tick_size,
        ),
{
}

/// Every quote of the plain ratchet stands at the target of its side, rests in the book, and is
/// not one that the trend suppresses.
pub proof fn law_ratchet_quotes_its_targets(
    state: RatchetState,
    symbol: Symbol,
    best_bid: Price,
    best_ask: Price,
    held: Exposure,
    intent: QuoteIntent,
)
    requires
        ratchet_orders(state, symbol, best_bid, best_ask, held) matches Some(actions)
            && actions.contains(Action::Quote(intent)),
    ensures
        ratchet_target(state, intent.side, held.mid) == Some(intent.price.0),
        intent.side is Bid ==> 0 < intent.price.0@ < best_ask.0@,
        intent.side is Ask ==> intent.price.0@ > best_bid.0@,
        trend_suppresses(state, held.mid) matches Some((no_bid, no_ask)) ==> {
            &&& intent.side is Bid ==> !no_bid
            &&& intent.side is Ask ==> !no_ask
        },
{
    let actions = ratchet_orders(state, symbol, best_bid, best_ask, held)->0;
    let i = choose|i: int| 0 <= i < actions.len() && actions[i] == Action::Quote(intent);
    assert(actions[i] == Action::Quote(intent));
}

/// A fill moves the anchor of its own side and no other.
pub proof fn law_fill_sets_its_anchor(state: RatchetState, ctx: StrategyContext, fill: Fill)
    ensures
        Ratchet::event_step(state, ctx, MarketEvent::Fill(fill)) matches Some((next, actions)) ==> {
            &&& actions.len() == 0
            &&& fill.side is Bid ==> next.last_buy_price == Some(fill.price.0)
                && next.last_sell_price == state.last_sell_price
            &&& fill.side is Ask ==> next.last_sell_price == Some(fill.price.0)
                && next.last_buy_price == state.last_buy_price
        },
        Ratchet::event_step(state, ctx, MarketEvent::Fill(fill)) is Some,
{
}

/// The closing quote of a pyramid offers the whole position, on the side against it, at its
/// distance beyond the average entry, or beyond the first entry where no distance from the
/// average is set.
pub proof fn law_pyramid_closes_beyond_the_entry(
    state: RatchetState,
    symbol: Symbol,
    best_bid: Price,
    best_ask: Price,
    pos_size: Decimal,
    cycle: Cycle,
    avg_entry: Decimal,
    intent: QuoteIntent,
)
    requires
        close_quote(state, symbol, best_bid, best_ask, pos_size, cycle, avg_entry) matches Some(
            actions,
        ) && actions.contains(Action::Quote(intent)),
    ensures
        ({
            let c = state.config;
            let from = if c.tp_bps_from_avg > 0 {
                avg_entry
            } else {
                cycle.first_entry_price
            };
            let bps = if c.tp_bps_from_avg > 0 {
                c.tp_bps_from_avg as int
            } else {
                c.tp_bps as int
            };
            let away = quotient(whole(bps), whole(10_000));
            &&& cycle.side_long ==> intent.side is Ask && Some(intent.price.0) == stepped(
                times(Some(from), plus(Some(whole(1)), away)),
                c.tick_size,
            )
            &&& !cycle.side_long ==> intent.side is Bid && Some(intent.price.0) == stepped(
                times(Some(from), minus(Some(whole(1)), away)),
                c.tick_size,
            )
            &&& Some(intent.size.0) == stepped(Some(absolute(pos_size)), c.step_size)
        }),
{
    let actions = close_quote(state, symbol, best_bid, best_ask, pos_size, cycle, avg_entry)->0;
    let i = choose|i: int| 0 <= i < actions.len() && actions[i] == Action::Quote(intent);
    assert(actions[i] == Action::Quote(intent));
}

/// A pyramid deepens on the side of the position, below the last add for a long and above it for
/// a short, and only while adds are left.
pub proof fn law_pyramid_adds_on_drawdown(
    state: RatchetState,
    symbol: Symbol,
    best_bid: Price,
    best_ask: Price,
    held: Exposure,
    cycle: Cycle,
    price: Decimal,
    suppressed: bool,
    intent: QuoteIntent,
)
    requires
        add_quote(
            state,
            symbol,
            best_bid,
            best_ask,
            held,
            cycle,
            price,
            suppressed,
        ) matches Some(actions) && actions.contains(Action::Quote(intent)),
    ensures
        cycle.adds_done < state.config.pyramid_max_adds,
        !suppressed,
        intent.price.0 == price,
        cycle.side_long ==> intent.side is Bid && price@ < best_ask.0@,
        !cycle.side_long ==> intent.side is Ask && price@ > best_bid.0@,
        add_size(state.config, cycle.adds_done, price) == Some(intent.size.0),
{
    let actions = add_quote(
        state,
        symbol,
        best_bid,
        best_ask,
        held,
        cycle,
        price,
        suppressed,
    )->0;
    let i = choose|i: int| 0 <= i < actions.len() && actions[i] == Action::Quote(intent);
    assert(actions[i] == Action::Quote(intent));
}

/// Each add is worth the multiplier times the one before it, the first the multiplier times
/// the notional of an order.
pub proof fn law_adds_compound(
    config: RatchetConfig,
    adds_done: u32,
    price: Decimal,
    factor: Decimal,
    grown: Decimal,
    notional: Decimal,
)
    requires
        price@ > 0,
        config.step_size@ <= 0,
        compounded(config.pyramid_size_mult, adds_done as nat) == Some(factor),
        product(factor, config.pyramid_size_mult) == Some(grown),
        product(config.notional_per_order, grown) == Some(notional),
    ensures
        add_size(config, adds_done, price) == quotient(notional, price),
        adds_done == 0 ==> factor == whole(1),
{
    assert(compounded(config.pyramid_size_mult, (adds_done + 1) as nat) == times(
        compounded(config.pyramid_size_mult, adds_done as nat),
        Some(config.pyramid_size_mult),
    ));
}

/// A cycle starts with a position at its average entry and ends when it is flat; in between an
/// add is counted exactly where the position has grown.
pub proof fn law_phase_follows_the_position(state: RatchetState, ctx: StrategyContext)
    requires
        phase_after(state, ctx) is Some,
    ensures
        ({
            let size = ctx.position.size.0;
            let next = phase_after(state, ctx)->0;
            &&& size@ == 0 <==> next is Flat
            &&& state.phase is Flat && size@ != 0 ==> {
                let cycle = next->Holding_0;
                &&& cycle.side_long == (size@ > 0)
                &&& cycle.first_entry_price == ctx.position.avg_entry.0
                &&& cycle.last_add_price == ctx.position.avg_entry.0
                &&& cycle.adds_done == 0
            }
            &&& state.phase is Holding && size@ != 0 ==> {
                let (was, now) = (state.phase->Holding_0, next->Holding_0);
                let bound = sum(was.prev_pos_abs, decimal(1, 8))->0;
                &&& now.side_long == was.side_long
                &&& absolute(size)@ > bound@ && was.adds_done < u32::MAX ==> now.adds_done
                    == was.adds_done + 1 && now.prev_pos_abs == absolute(size)
                &&& absolute(size)@ <= bound@ ==> now.adds_done == was.adds_done
                    && now.last_add_price == was.last_add_price
                &&& absolute(size)@ <= bound@ && absolute(size)@ < was.prev_pos_abs@
                    ==> now.prev_pos_abs == absolute(size)
                &&& absolute(size)@ > bound@ && was.side_long && state.last_buy_price is Some
                    ==> now.last_add_price == state.last_buy_price->0
                &&& absolute(size)@ > bound@ && !was.side_long && state.last_sell_price is Some
                    ==> now.last_add_price == state.last_sell_price->0
            }
        }),
{
}

/// Orders are placed no sooner than the refresh cooldown after the last placement.
pub proof fn law_placements_are_spaced(state: RatchetState, now: u64)
    ensures
        state.last_place_ts_ns == 0 ==> !cooling(state, now),
        now - state.last_place_ts_ns >= state.config.refresh_cooldown_ms * 1_000_000 ==> !cooling(
            state,
            now,
        ),
        state.last_place_ts_ns > 0 && 0 <= now - state.last_place_ts_ns
            < state.config.refresh_cooldown_ms * 1_000_000 <= u64::MAX ==> cooling(state, now),
{
}

/// The stop of a cycle is reached exactly where the mid has moved against it by
/// `sl_bps_from_first` of the first entry: below it for a long, above it for a short.
pub proof fn law_stop_is_measured_from_the_first_entry(
    config: RatchetConfig,
    cycle: Cycle,
    mid: Decimal,
    gain: Decimal,
    gain_bps: Decimal,
)
    requires
        cycle.side_long ==> difference(mid, cycle.first_entry_price) == Some(gain) && gain@ == mid@
            - cycle.first_entry_price@,
        !cycle.side_long ==> difference(cycle.first_entry_price, mid) == Some(gain) && gain@
            == cycle.first_entry_price@ - mid@,
        reads_exactly(gain, cycle.first_entry_price, gain_bps),
        negated(gain_bps)@ == -gain_bps@,
    ensures
        ({
            let entry = cycle.first_entry_price@;
            let lost = if cycle.side_long {
                entry - mid@
            } else {
                mid@ - entry
            };
            stop_reached(config, cycle, mid) == Some(
                config.sl_bps_from_first > 0 && lost * 10_000 >= config.sl_bps_from_first * entry,
            )
        }),
{
    let bps = config.sl_bps_from_first as int;
    lemma_reads_exactly(gain, cycle.first_entry_price, gain_bps, -bps);
    lemma_whole(bps);
    assert((-bps) * pow10(28) == -(bps * pow10(28))) by (nonlinear_arith);
    let entry = cycle.first_entry_price@;
    assert((-bps) * entry == -(bps * entry)) by (nonlinear_arith);
}

/// A rise over the window by more than the filter holds back the bids, a fall by more than it
/// the asks.
pub proof fn law_trend_holds_back_its_side(
    state: RatchetState,
    mid: Decimal,
    moved: Decimal,
    moved_bps: Decimal,
)
    requires
        state.config.trend_window_secs > 0,
        state.config.trend_filter_bps > 0,
        state.mid_samples.len() > 0,
        difference(mid, state.mid_samples[0].1) == Some(moved),
        moved@ == mid@ - state.mid_samples[0].1@,
        reads_exactly(moved, state.mid_samples[0].1, moved_bps),
    ensures
        ({
            let then = state.mid_samples[0].1@;
            let bps = state.config.trend_filter_bps as int;
            trend_suppresses(state, mid) == Some(
                ((mid@ - then) * 10_000 > bps * then, (then - mid@) * 10_000 > bps * then),
            )
        }),
{
    let bps = state.config.trend_filter_bps as int;
    let then = state.mid_samples[0].1@;
    lemma_reads_exactly(moved, state.mid_samples[0].1, moved_bps, bps);
    lemma_reads_exactly(moved, state.mid_samples[0].1, moved_bps, -bps);
    lemma_whole(bps);
    lemma_whole(-bps);
    lemma_negated_whole(bps);
    assert((-bps) * pow10(28) == -(bps * pow10(28))) by (nonlinear_arith);
    assert((-bps) * then == -(bps * then)) by (nonlinear_arith);
}

/// Reaching the stop cancels everything and takes the whole position off at the opposing touch;
/// before it nothing is taken.
pub proof fn law_stop_takes_the_position_off(
    state: RatchetState,
    ctx: StrategyContext,
    best_bid: Price,
    best_ask: Price,
    held: Exposure,
    cycle: Cycle,
    stop: bool,
)
    requires
        state.phase == Phase::Holding(cycle),
        stop_reached(state.config, cycle, held.mid) == Some(stop),
    ensures
        phase_step(state, ctx, best_bid, best_ask, held) matches Some((next, actions)) ==> {
            &&& stop ==> next.phase is Flat && actions =~= seq![
                Action::CancelAll,
                Action::Quote(
                    if cycle.side_long {
                        taker_order(
                            *ctx.symbol,
                            Side::Ask,
                            best_bid.0,
                            absolute(ctx.position.size.0),
                        )
                    } else {
                        taker_order(
                            *ctx.symbol,
                            Side::Bid,
                            best_ask.0,
                            absolute(ctx.position.size.0),
                        )
                    },
                ),
            ]
            &&& !stop ==> next.phase == state.phase
        },
{
}

/// While a pyramid is held the deepening side is also quoted `tp_bps` off the last fill on the
/// other side, below the last sale for a long and above the last purchase for a short.
pub proof fn law_chop_ratchets_off_the_other_side(
    state: RatchetState,
    symbol: Symbol,
    best_bid: Price,
    best_ask: Price,
    held: Exposure,
    side_long: bool,
    suppressed: bool,
    order: QuoteIntent,
)
    requires
        chop_quote(
            state,
            symbol,
            best_bid,
            best_ask,
            held,
            side_long,
            suppressed,
        ) matches Some(actions) && actions.contains(Action::Quote(order)),
    ensures
        ({
            let away = quotient(whole(state.config.tp_bps as int), whole(10_000));
            &&& !suppressed
            &&& side_long ==> order.side is Bid && state.last_sell_price is Some && Some(
                order.price.0,
            ) == stepped(
                times(state.last_sell_price, minus(Some(whole(1)), away)),
                state.config.tick_size,
            )
            &&& !side_long ==> order.side is Ask && state.last_buy_price is Some && Some(
                order.price.0,
            ) == stepped(
                times(state.last_buy_price, plus(Some(whole(1)), away)),
                state.config.tick_size,
            )
        }),
{
    let actions = chop_quote(state, symbol, best_bid, best_ask, held, side_long, suppressed)->0;
    let i = choose|i: int| 0 <= i < actions.len() && actions[i] == Action::Quote(order);
    assert(actions[i] == Action::Quote(order));
}

/// A quote has a size and is worth the minimum notional; anything less is not placed.
pub proof fn law_quotes_are_worth_the_minimum(
    config: RatchetConfig,
    symbol: Symbol,
    side: Side,
    price: Decimal,
    size: Decimal,
    value: Decimal,
)
    requires
        product(price, size) == Some(value),
    ensures
        size@ > 0 && value@ >= config.min_notional@ ==> quote_worth_placing(
            config,
            symbol,
            side,
            price,
            size,
        ) == Some(seq![Action::Quote(maker_order(symbol, side, price, size))]),
        size@ <= 0 || value@ < config.min_notional@ ==> quote_worth_placing(
            config,
            symbol,
            side,
            price,
            size,
        ) == Some(Seq::<Action>::empty()),
{
}

/// The cap holds back an order that would deepen a position at it, or past it, and never one
/// that reduces.
pub proof fn law_cap_counts_the_order(
    config: RatchetConfig,
    held: Exposure,
    size: Decimal,
    longer: Decimal,
    shorter: Decimal,
    long_value: Decimal,
    short_value: Decimal,
)
    requires
        config.max_position_usdt@ > 0,
        sum(held.size, size) == Some(longer),
        product(longer, held.mid) == Some(long_value),
        difference(held.size, size) == Some(shorter),
        product(shorter, held.mid) == Some(short_value),
    ensures
        ({
            let cap = config.max_position_usdt@;
            &&& cap_suppresses(config, held, Side::Bid, size) == Some(
                held.size@ >= 0 && (absolute(held.value)@ >= cap || absolute(long_value)@ > cap),
            )
            &&& cap_suppresses(config, held, Side::Ask, size) == Some(
                held.size@ <= 0 && (absolute(held.value)@ >= cap || absolute(short_value)@ > cap),
            )
        }),
{
}

/// Each mid is kept for the length of the trend window.
pub proof fn law_window_starts_within_its_length(state: RatchetState, ts_ns: u64, mid: Decimal)
    requires
        state.config.trend_window_secs > 0,
        state.config.trend_window_secs * 1_000_000_000 <= ts_ns,
    ensures
        observed(state, ts_ns, mid).mid_samples.len() > 0 ==> observed(
            state,
            ts_ns,
            mid,
        ).mid_samples[0].0 >= ts_ns - state.config.trend_window_secs * 1_000_000_000,
        observed(state, ts_ns, mid).mid_samples.len() > 0,
        observed(state, ts_ns, mid).mid_samples.last() == (ts_ns, mid),
{
    let window = state.config.trend_window_secs * 1_000_000_000;
    let all = state.mid_samples.push((ts_ns, mid));
    law_pruning_keeps_the_recent(all, ts_ns - window);
    let kept = pruned(all, ts_ns - window);
    if kept.len() == 0 {
        assert(all[all.len() - 1].0 < ts_ns - window);
    }
    assert(kept.last() == all.last());
}

/// Orders that name another side or price than those placed last are placed, and remembered.
pub proof fn law_changed_orders_are_placed(
    state: RatchetState,
    now: u64,
    actions: Seq<Action>,
)
    requires
        !same_quotes(sorted(signature(actions)), state.last_placed_sig),
    ensures
        placed(state, now, actions).1 == actions,
        placed(state, now, actions).0.last_place_ts_ns == now,
        placed(state, now, actions).0.last_placed_sig == sorted(signature(actions)),
{
}

/// The signature of some orders names the side and the price of each quote and nothing else.
pub proof fn law_signature_names_every_quote(actions: Seq<Action>, order: QuoteIntent)
    ensures
        signature(actions.push(Action::Quote(order))) == signature(actions).push(
            Placed { side: order.side, price: order.price },
        ),
        signature(actions.push(Action::CancelAll)) == signature(actions),
{
    assert(actions.push(Action::Quote(order)).drop_last() =~= actions);
    assert(actions.push(Action::CancelAll).drop_last() =~= actions);
}

/// A cycle with a pyramid works its position; without one, or while flat, the plain ratchet works
/// both sides.
pub proof fn law_pyramid_replaces_the_ratchet(
    state: RatchetState,
    ctx: StrategyContext,
    best_bid: Price,
    best_ask: Price,
    held: Exposure,
)
    ensures
        state.phase is Flat || state.config.pyramid_max_adds == 0 ==> candidates(
            state,
            ctx,
            best_bid,
            best_ask,
            held,
        ) == ratchet_orders(state, *ctx.symbol, best_bid, best_ask, held),
        state.phase is Holding && state.config.pyramid_max_adds > 0 ==> candidates(
            state,
            ctx,
            best_bid,
            best_ask,
            held,
        ) == pyramid_orders(
            state,
            *ctx.symbol,
            best_bid,
            best_ask,
            held,
            state.phase->Holding_0,
            ctx.position.avg_entry.0,
        ),
{
}

} // verus!
