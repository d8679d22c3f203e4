//! Long-only RSI mean reversion behind an efficiency-ratio regime gate.
//!
//! Bars are built from book and trade events. On closed bars the strategy reads
//! the relative strength index (RSI), the Kaufman efficiency ratio (KER), the
//! average true range (ATR) and the z-score of the volume.
//!
//! - Entry, when flat: RSI below its threshold, KER below its threshold (chop, not
//!   trend) and the volume z-score above its threshold: one post-only bid at the
//!   best bid.
//! - Take-profit: once the entry fills, a post-only ask at
//!   `entry + atr_tp_mult x ATR`.
//! - Stop-loss: on any event, where the mid is below `entry - atr_sl_mult x ATR`,
//!   an IOC sell a tick below the best bid.
//! - RSI exit: where RSI is above its exit threshold, a fresh ask at the best ask.
//! - Timeout: after `max_hold_bars` bars, an IOC sell.
//!
//! The z-score needs a square root, which decimals do not have: the caller takes
//! the root of [`RsiMr::volume_variance_after`] and hands it in with
//! [`RsiMr::set_volume_deviation`] before the event. Without a reading there is no
//! entry.

use crate::decimal::{
    absolute, adds_exactly, difference, exact_difference, exact_sum, greater, lemma_parts,
    lemma_pow10_positive, lemma_quotient_keeps_order, lemma_quotient_keeps_whole_order, lemma_whole,
    magnitude, mantissa_of, minus, over, plus, pow10, product, quotient, rounds_quotient, scale_of,
    subtracts_exactly, sum, whole, MAX_MANTISSA, Decimal,
};
use crate::market::{
    point_order, Fill, MarketEvent, Price, QuoteIntent, Side, Size, Symbol, TimeInForce, Timestamp,
};
use crate::quoting::{
    capped_product, elapsed, make_intent, midpoint, newest, saturating_product, try_midpoint,
};
use crate::sizing::{
    lot_size, stepped, stepped_up, try_lot_size, try_stepped, try_stepped_up,
};
use crate::strategy::{follows, keeps_to, quotes_on, Action, Strategy, StrategyContext};
use std::collections::VecDeque;
use vstd::prelude::*;

verus! {

/// Configuration for [`RsiMr`].
#[derive(Clone, Copy, Debug)]
pub struct RsiMrConfig {
    /// Notional in quote currency per entry.
    pub notional_per_order: Decimal,
    /// Venue tick size.
    pub tick_size: Decimal,
    /// Venue lot step.
    pub step_size: Decimal,
    /// Venue min order notional in quote.
    pub min_notional: Decimal,
    /// Bar interval in seconds.
    pub bar_interval_secs: u64,
    /// Most closed bars to retain.
    pub max_bars: usize,
    /// RSI period.
    pub rsi_period: u32,
    /// Enter long below this RSI.
    pub rsi_buy_threshold: u32,
    /// Exit long above this RSI.
    pub rsi_exit_threshold: u32,
    /// KER period.
    pub ker_period: u32,
    /// No entry at or above this KER.
    pub ker_max_trending: Decimal,
    /// Volume z-score lookback in bars.
    pub vol_zscore_period: u32,
    /// No entry at or below this volume z-score.
    pub vol_zscore_min: Decimal,
    /// ATR period.
    pub atr_period: u32,
    /// Stop distance from the entry in ATR multiples.
    pub atr_sl_mult: Decimal,
    /// Target distance from the entry in ATR multiples.
    pub atr_tp_mult: Decimal,
    /// Bars to hold before the timeout exit.
    pub max_hold_bars: u32,
}

/// A bar.
#[derive(Clone, Copy, Debug)]
pub struct Bar {
    /// First price.
    pub open: Decimal,
    /// Highest price.
    pub high: Decimal,
    /// Lowest price.
    pub low: Decimal,
    /// Last price.
    pub close: Decimal,
    /// Traded volume.
    pub volume: Decimal,
}

/// A position. It exists only once the entry has filled: arming the exits against
/// an unfilled bid would sell what is not held.
#[derive(Clone, Copy, Debug)]
pub struct OpenPosition {
    /// Entry price.
    pub entry_price: Decimal,
    /// Bar counter at the entry signal.
    pub entry_bar_idx: u64,
    /// ATR at the entry signal.
    pub atr_at_entry: Decimal,
    /// Whether an exit ask has been posted.
    pub tp_posted: bool,
}

/// An entry bid that has not filled yet, with the context of its signal.
#[derive(Clone, Copy, Debug)]
pub struct PendingEntry {
    /// Bar counter at the signal.
    pub entry_bar_idx: u64,
    /// ATR at the signal.
    pub atr_at_entry: Decimal,
}

/// Long-only RSI mean reversion.
pub struct RsiMr {
    /// Settings.
    pub config: RsiMrConfig,
    /// Closed bars, oldest first.
    pub closed: VecDeque<Bar>,
    /// Bar in progress.
    pub open_bar: Option<Bar>,
    /// Interval of the bar in progress.
    pub current_bucket: Option<u64>,
    /// Bars closed so far.
    pub bars_seen: u64,
    /// Position held, if any.
    pub position: Option<OpenPosition>,
    /// Entry bid in flight, if any.
    pub pending_entry: Option<PendingEntry>,
    /// Standard deviation of the volume for the next event, where the caller gave
    /// one.
    pub deviation: Option<Decimal>,
}

/// Mathematical content of an [`RsiMr`].
#[verifier::ext_equal]
pub struct RsiState {
    /// Settings.
    pub config: RsiMrConfig,
    /// Closed bars, oldest first.
    pub closed: Seq<Bar>,
    /// Bar in progress.
    pub open_bar: Option<Bar>,
    /// Interval of the bar in progress.
    pub current_bucket: Option<u64>,
    /// Bars closed so far.
    pub bars_seen: u64,
    /// Position held, if any.
    pub position: Option<OpenPosition>,
    /// Entry bid in flight, if any.
    pub pending_entry: Option<PendingEntry>,
    /// Standard deviation of the volume for the next event, where the caller gave
    /// one.
    pub deviation: Option<Decimal>,
}

impl View for RsiMr {
    type V = RsiState;

    open spec fn view(&self) -> RsiState {
        RsiState {
            config: self.config,
            closed: self.closed@,
            open_bar: self.open_bar,
            current_bucket: self.current_bucket,
            bars_seen: self.bars_seen,
            position: self.position,
            pending_entry: self.pending_entry,
            deviation: self.deviation,
        }
    }
}

/// A bar with a single price and no volume.
pub open spec fn point_bar(price: Decimal) -> Bar {
    Bar { open: price, high: price, low: price, close: price, volume: whole(0) }
}

/// A bar once one more price is seen.
pub open spec fn bar_with_price(bar: Bar, price: Decimal) -> Bar {
    Bar {
        close: price,
        high: if price@ > bar.high@ {
            price
        } else {
            bar.high
        },
        low: if price@ < bar.low@ {
            price
        } else {
            bar.low
        },
        ..bar
    }
}

/// The interval a time falls into; everything is one interval where its length is
/// zero.
pub open spec fn bucket(config: RsiMrConfig, ts: Timestamp) -> u64 {
    let interval = capped_product(config.bar_interval_secs as int, 1_000_000_000);
    if interval == 0 {
        0
    } else {
        (ts.0 as int / interval) as u64
    }
}

/// The bars once a price is seen: a change of interval closes the bar in progress.
pub open spec fn priced(state: RsiState, ts: Timestamp, price: Decimal) -> RsiState {
    let now = bucket(state.config, ts);
    let rolled = match state.current_bucket {
        None => RsiState {
            current_bucket: Some(now),
            open_bar: Some(point_bar(price)),
            ..state
        },
        Some(b) => if b == now {
            state
        } else {
            RsiState {
                closed: match state.open_bar {
                    Some(bar) => newest(state.closed.push(bar), state.config.max_bars as int),
                    None => state.closed,
                },
                bars_seen: if state.open_bar is Some && state.bars_seen < u64::MAX {
                    (state.bars_seen + 1) as u64
                } else {
                    state.bars_seen
                },
                current_bucket: Some(now),
                open_bar: Some(point_bar(price)),
                ..state
            }
        },
    };
    RsiState {
        open_bar: match rolled.open_bar {
            Some(bar) => Some(bar_with_price(bar, price)),
            None => None,
        },
        ..rolled
    }
}

/// The mid of the latest book; the inner `None` is a one-sided book.
pub open spec fn book_mid(ctx: StrategyContext) -> Option<Option<Decimal>> {
    let book = *ctx.latest_book;
    if book.bids@.len() == 0 || book.asks@.len() == 0 {
        Some(None)
    } else {
        match midpoint(book.bids@[0].price.0, book.asks@[0].price.0) {
            None => None,
            Some(mid) => Some(Some(mid)),
        }
    }
}

/// The bars once an event is in.
pub open spec fn bars_after(
    state: RsiState,
    ctx: StrategyContext,
    event: MarketEvent,
    mid: Option<Decimal>,
) -> Option<RsiState> {
    let price = match event {
        MarketEvent::BookUpdate { .. } => mid,
        MarketEvent::Trade { price, .. } => Some(price.0),
        _ => None,
    };
    let seen = match price {
        Some(p) => if p@ > 0 {
            priced(state, ctx.now, p)
        } else {
            state
        },
        None => state,
    };
    match (event, seen.open_bar) {
        (MarketEvent::Trade { size, .. }, Some(bar)) => match sum(bar.volume, size.0) {
            None => None,
            Some(volume) => Some(RsiState { open_bar: Some(Bar { volume, ..bar }), ..seen }),
        },
        _ => Some(seen),
    }
}

/// Total gain and total loss over the newest `k` changes of the close.
pub open spec fn gain_and_loss(bars: Seq<Bar>, k: nat) -> Option<(Decimal, Decimal)>
    decreases k,
{
    if k == 0 {
        Some((whole(0), whole(0)))
    } else {
        match gain_and_loss(bars, (k - 1) as nat) {
            None => None,
            Some((gain, loss)) => match difference(
                bars[bars.len() - k].close,
                bars[bars.len() - k - 1].close,
            ) {
                None => None,
                Some(change) => if change@ > 0 {
                    match sum(gain, change) {
                        None => None,
                        Some(more) => Some((more, loss)),
                    }
                } else {
                    match difference(loss, change) {
                        None => None,
                        Some(more) => Some((gain, more)),
                    }
                },
            },
        }
    }
}

/// RSI over the newest `n` changes; the inner `None` is too few bars.
pub open spec fn rsi_of(bars: Seq<Bar>, n: nat) -> Option<Option<Decimal>> {
    if bars.len() < n + 1 {
        Some(None)
    } else {
        match gain_and_loss(bars, n) {
            None => None,
            Some((gain, loss)) => if loss@ == 0 {
                Some(Some(whole(100)))
            } else {
                match minus(
                    Some(whole(100)),
                    over(Some(whole(100)), plus(Some(whole(1)), quotient(gain, loss))),
                ) {
                    None => None,
                    Some(rsi) => Some(Some(rsi)),
                }
            },
        }
    }
}

/// Total movement over the newest `k` changes of the close.
pub open spec fn path_length(bars: Seq<Bar>, k: nat) -> Option<Decimal>
    decreases k,
{
    if k == 0 {
        Some(whole(0))
    } else {
        match (
            path_length(bars, (k - 1) as nat),
            difference(bars[bars.len() - k].close, bars[bars.len() - k - 1].close),
        ) {
            (Some(path), Some(change)) => sum(path, absolute(change)),
            _ => None,
        }
    }
}

/// Efficiency ratio over the newest `n` changes: net movement over total movement;
/// the inner `None` is too few bars.
pub open spec fn ker_of(bars: Seq<Bar>, n: nat) -> Option<Option<Decimal>> {
    if bars.len() < n + 1 {
        Some(None)
    } else {
        match (
            difference(bars[bars.len() - 1].close, bars[bars.len() - 1 - n].close),
            path_length(bars, n),
        ) {
            (Some(net), Some(path)) => if path@ == 0 {
                Some(Some(whole(0)))
            } else {
                match quotient(absolute(net), path) {
                    None => None,
                    Some(ker) => Some(Some(ker)),
                }
            },
            _ => None,
        }
    }
}

/// Whether no digit is lost in adding up one more change of the close, the `k`-th newest.
pub open spec fn adds_change_exactly(bars: Seq<Bar>, k: int) -> bool {
    let newer = bars[bars.len() - k].close;
    let older = bars[bars.len() - k - 1].close;
    &&& subtracts_exactly(newer, older)
    &&& adds_exactly(path_length(bars, (k - 1) as nat)->0, absolute(difference(newer, older)->0))
}

/// Whether no digit is lost in measuring the newest `n` changes of the close.
pub open spec fn measures_exactly(bars: Seq<Bar>, n: nat) -> bool {
    &&& subtracts_exactly(bars[bars.len() - 1].close, bars[bars.len() - 1 - n].close)
    &&& forall|k: int| 1 <= k <= n ==> #[trigger] adds_change_exactly(bars, k)
}

/// Whether the close never falls over the newest `n` changes.
pub open spec fn closes_rise(bars: Seq<Bar>, n: nat) -> bool {
    forall|i: int, j: int|
        bars.len() - 1 - n <= i <= j < bars.len() ==> (#[trigger] bars[i]).close@ <= (
        #[trigger] bars[j]).close@
}

/// Whether the close never rises over the newest `n` changes.
pub open spec fn closes_fall(bars: Seq<Bar>, n: nat) -> bool {
    forall|i: int, j: int|
        bars.len() - 1 - n <= i <= j < bars.len() ==> (#[trigger] bars[i]).close@ >= (
        #[trigger] bars[j]).close@
}

/// Where the efficiency ratio has to lie: between 0 and 1, at 1 for a pure trend, whose
/// closes move one way only, and at 0 where they end where they began.
pub open spec fn tells_trend_from_chop(bars: Seq<Bar>, n: nat, ker: int) -> bool {
    let first = bars[bars.len() - 1 - n].close@;
    let last = bars[bars.len() - 1].close@;
    &&& 0 <= ker <= pow10(28)
    &&& first == last ==> ker == 0
    &&& first != last && (closes_rise(bars, n) || closes_fall(bars, n)) ==> ker == pow10(28)
}

/// True range of a bar behind another: the largest of its own range and its reach
/// from the close before.
pub open spec fn true_range(bar: Bar, before: Bar) -> Option<Decimal> {
    match (
        difference(bar.high, bar.low),
        difference(bar.high, before.close),
        difference(bar.low, before.close),
    ) {
        (Some(range), Some(up), Some(down)) => Some(
            greater(greater(range, absolute(up)), absolute(down)),
        ),
        _ => None,
    }
}

/// Whether no digit is lost in adding up the true ranges of the newest `n` bars.
pub open spec fn ranges_add_exactly(bars: Seq<Bar>, n: nat) -> bool {
    forall|k: int|
        1 <= k <= n ==> exact_sum(
            range_total(bars, (k - 1) as nat)->0,
            #[trigger] newest_range(bars, k),
        )
}

/// True range of the `k`-th newest bar.
pub open spec fn newest_range(bars: Seq<Bar>, k: int) -> Decimal {
    true_range(bars[bars.len() - k], bars[bars.len() - k - 1])->0
}

/// Whether an average of the newest `n` true ranges is at least the least and at most the
/// greatest of them.
pub open spec fn between_ranges(bars: Seq<Bar>, n: nat, average: int) -> bool {
    &&& forall|least: int|
        1 <= least <= n && (forall|k: int|
            1 <= k <= n ==> newest_range(bars, least)@ <= (#[trigger] newest_range(bars, k))@)
            ==> (#[trigger] newest_range(bars, least))@ <= average
    &&& forall|greatest: int|
        1 <= greatest <= n && (forall|k: int|
            1 <= k <= n ==> newest_range(bars, greatest)@ >= (#[trigger] newest_range(bars, k))@)
            ==> (#[trigger] newest_range(bars, greatest))@ >= average
}

proof fn lemma_range_total_bounds(bars: Seq<Bar>, n: nat, k: nat, low: int, high: int)
    requires
        k <= n < bars.len(),
        range_total(bars, n) is Some,
        ranges_add_exactly(bars, n),
        forall|j: int| 1 <= j <= n ==> low <= (#[trigger] newest_range(bars, j))@ <= high,
    ensures
        range_total(bars, k) is Some,
        k * low <= range_total(bars, k)->0@ <= k * high,
    decreases k,
{
    if range_total(bars, k) is None {
        lemma_range_total_fails(bars, k, n);
    }
    lemma_whole(0);
    if k > 0 {
        lemma_range_total_bounds(bars, n, (k - 1) as nat, low, high);
        let r = newest_range(bars, k as int);
        assert(low <= r@ <= high);
        assert(k * low == (k - 1) * low + low && k * high == (k - 1) * high + high)
            by (nonlinear_arith);
    } else {
        assert(0 * low == 0 && 0 * high == 0);
    }
}

/// Total true range of the newest `k` bars.
pub open spec fn range_total(bars: Seq<Bar>, k: nat) -> Option<Decimal>
    decreases k,
{
    if k == 0 {
        Some(whole(0))
    } else {
        match (
            range_total(bars, (k - 1) as nat),
            true_range(bars[bars.len() - k], bars[bars.len() - k - 1]),
        ) {
            (Some(total), Some(range)) => sum(total, range),
            _ => None,
        }
    }
}

/// Average true range of the newest `n` bars; the inner `None` is a zero period or
/// too few bars.
pub open spec fn atr_of(bars: Seq<Bar>, n: nat) -> Option<Option<Decimal>> {
    if n == 0 || bars.len() < n + 1 {
        Some(None)
    } else {
        match over(range_total(bars, n), Some(whole(n as int))) {
            None => None,
            Some(atr) => Some(Some(atr)),
        }
    }
}

/// Total volume of the `k` bars before the newest, newest of them first.
pub open spec fn volume_total(bars: Seq<Bar>, k: nat) -> Option<Decimal>
    decreases k,
{
    if k == 0 {
        Some(whole(0))
    } else {
        plus(volume_total(bars, (k - 1) as nat), Some(bars[bars.len() - 1 - k].volume))
    }
}

/// Total squared distance of those volumes from `mean`.
pub open spec fn square_total(bars: Seq<Bar>, mean: Decimal, k: nat) -> Option<Decimal>
    decreases k,
{
    if k == 0 {
        Some(whole(0))
    } else {
        match (
            square_total(bars, mean, (k - 1) as nat),
            difference(bars[bars.len() - 1 - k].volume, mean),
        ) {
            (Some(total), Some(distance)) => plus(Some(total), product(distance, distance)),
            _ => None,
        }
    }
}

/// Mean and variance of the volume over the `n` bars before the newest; the inner
/// `None` is too few bars.
pub open spec fn volume_stats(bars: Seq<Bar>, n: nat) -> Option<Option<(Decimal, Decimal)>> {
    if bars.len() < n + 1 {
        Some(None)
    } else {
        match over(volume_total(bars, n), Some(whole(n as int))) {
            None => None,
            Some(mean) => match over(square_total(bars, mean, n), Some(whole(n as int))) {
                None => None,
                Some(variance) => Some(Some((mean, variance))),
            },
        }
    }
}

/// How many deviations the newest volume lies above the mean of those before; zero
/// for a zero deviation. The inner `None` is too few bars or no deviation.
pub open spec fn zscore_of(bars: Seq<Bar>, n: nat, deviation: Option<Decimal>) -> Option<
    Option<Decimal>,
> {
    match volume_stats(bars, n) {
        None => None,
        Some(None) => Some(None),
        Some(Some((mean, _))) => match deviation {
            None => Some(None),
            Some(deviation) => if deviation@ == 0 {
                Some(Some(whole(0)))
            } else {
                match over(difference(bars.last().volume, mean), Some(deviation)) {
                    None => None,
                    Some(z) => Some(Some(z)),
                }
            },
        },
    }
}

/// The size of an exit: the position on the lot grid, or an entry's size where
/// there is none to see.
pub open spec fn exit_order(
    config: RsiMrConfig,
    ctx: StrategyContext,
    price: Decimal,
    tif: TimeInForce,
) -> Option<Action> {
    match stepped(Some(absolute(ctx.position.size.0)), config.step_size) {
        None => None,
        Some(qty) => if qty@ > 0 {
            Some(Action::Quote(point_order(*ctx.symbol, Side::Ask, price, qty, tif)))
        } else {
            sized_order(config, *ctx.symbol, Side::Ask, price, tif)
        },
    }
}

/// An order of the configured notional.
pub open spec fn sized_order(
    config: RsiMrConfig,
    symbol: Symbol,
    side: Side,
    price: Decimal,
    tif: TimeInForce,
) -> Option<Action> {
    match lot_size(config.notional_per_order, price, config.step_size, config.min_notional) {
        None => None,
        Some(size) => Some(Action::Quote(point_order(symbol, side, price, size, tif))),
    }
}

/// Giving a position up: everything is cancelled and the rest sold at `price`.
pub open spec fn given_up(
    state: RsiState,
    ctx: StrategyContext,
    price: Option<Decimal>,
    before: Seq<Action>,
) -> Option<(RsiState, Seq<Action>)> {
    match stepped(price, state.config.tick_size) {
        None => None,
        Some(price) => match exit_order(state.config, ctx, price, TimeInForce::IOC) {
            None => None,
            Some(order) => Some(
                (
                    RsiState { position: None, ..state },
                    before.push(Action::CancelAll).push(order),
                ),
            ),
        },
    }
}

/// Where the exits leave an event.
pub enum Managed {
    /// The position was given up; the event ends here.
    Out(RsiState, Seq<Action>),
    /// The event goes on.
    On(RsiState, Seq<Action>),
}

/// The exits of an open position at a mid: stop-loss, timeout, then the RSI exit.
pub open spec fn exits(
    state: RsiState,
    ctx: StrategyContext,
    held: OpenPosition,
    mid: Decimal,
    before: Seq<Action>,
) -> Option<Managed> {
    let c = state.config;
    let bid = ctx.latest_book.bids@[0].price.0;
    let ask = ctx.latest_book.asks@[0].price.0;
    match minus(Some(held.entry_price), product(held.atr_at_entry, c.atr_sl_mult)) {
        None => None,
        Some(trigger) => if mid@ < trigger@ {
            match given_up(state, ctx, difference(bid, c.tick_size), before) {
                None => None,
                Some((next, actions)) => Some(Managed::Out(next, actions)),
            }
        } else if elapsed(state.bars_seen, held.entry_bar_idx) >= c.max_hold_bars {
            match given_up(state, ctx, Some(bid), before) {
                None => None,
                Some((next, actions)) => Some(Managed::Out(next, actions)),
            }
        } else {
            match rsi_of(state.closed, c.rsi_period as nat) {
                None => None,
                Some(Some(rsi)) => if rsi@ > whole(c.rsi_exit_threshold as int)@ {
                    match stepped_up(Some(ask), c.tick_size) {
                        None => None,
                        Some(price) => match exit_order(c, ctx, price, TimeInForce::PostOnly) {
                            None => None,
                            Some(order) => Some(
                                Managed::On(
                                    RsiState {
                                        position: Some(OpenPosition { tp_posted: true, ..held }),
                                        ..state
                                    },
                                    before.push(Action::CancelAll).push(order),
                                ),
                            ),
                        },
                    }
                } else {
                    Some(Managed::On(state, before))
                },
                Some(None) => Some(Managed::On(state, before)),
            }
        },
    }
}

/// The entry signal: the ATR where every gate is open, else the inner `None`.
pub open spec fn entry_signal(state: RsiState, ctx: StrategyContext) -> Option<Option<Decimal>> {
    let c = state.config;
    match rsi_of(state.closed, c.rsi_period as nat) {
        None => None,
        Some(None) => Some(None),
        Some(Some(rsi)) => match ker_of(state.closed, c.ker_period as nat) {
            None => None,
            Some(None) => Some(None),
            Some(Some(ker)) => match atr_of(state.closed, c.atr_period as nat) {
                None => None,
                Some(None) => Some(None),
                Some(Some(atr)) => match zscore_of(
                    state.closed,
                    c.vol_zscore_period as nat,
                    state.deviation,
                ) {
                    None => None,
                    Some(None) => Some(None),
                    Some(Some(z)) => if ctx.latest_book.bids@.len() > 0 && rsi@ < whole(
                        c.rsi_buy_threshold as int,
                    )@ && ker@ < c.ker_max_trending@ && z@ > c.vol_zscore_min@ && atr@ > 0 {
                        Some(Some(atr))
                    } else {
                        Some(None)
                    },
                },
            },
        },
    }
}

/// The entry, on a book update while flat with no entry in flight.
pub open spec fn entry(
    state: RsiState,
    ctx: StrategyContext,
    event: MarketEvent,
    before: Seq<Action>,
) -> Option<(RsiState, Seq<Action>)> {
    if state.position is Some || state.pending_entry is Some || !(event is BookUpdate) {
        Some((state, before))
    } else {
        match entry_signal(state, ctx) {
            None => None,
            Some(None) => Some((state, before)),
            Some(Some(atr)) => match stepped(
                Some(ctx.latest_book.bids@[0].price.0),
                state.config.tick_size,
            ) {
                None => None,
                Some(price) => match sized_order(
                    state.config,
                    *ctx.symbol,
                    Side::Bid,
                    price,
                    TimeInForce::PostOnly,
                ) {
                    None => None,
                    Some(order) => Some(
                        (
                            RsiState {
                                pending_entry: Some(
                                    PendingEntry {
                                        entry_bar_idx: state.bars_seen,
                                        atr_at_entry: atr,
                                    },
                                ),
                                ..state
                            },
                            before.push(order),
                        ),
                    ),
                },
            },
        }
    }
}

/// ATR that an entry fill is anchored to: that of its signal, else the current one,
/// else zero.
pub open spec fn entry_atr(state: RsiState) -> Option<Decimal> {
    match state.pending_entry {
        Some(pending) => Some(pending.atr_at_entry),
        None => match atr_of(state.closed, state.config.atr_period as nat) {
            None => None,
            Some(Some(atr)) => Some(atr),
            Some(None) => Some(whole(0)),
        },
    }
}

/// A fill: a bid fill while flat opens the position and posts its target; a full
/// ask fill closes it.
pub open spec fn filled(
    state: RsiState,
    ctx: StrategyContext,
    fill: Fill,
    before: Seq<Action>,
) -> Option<(RsiState, Seq<Action>)> {
    if fill.side == Side::Bid && state.position is None {
        match entry_atr(state) {
            None => None,
            Some(atr) => match plus(
                Some(fill.price.0),
                product(atr, state.config.atr_tp_mult),
            ) {
                None => None,
                Some(target) => match stepped_up(Some(target), state.config.tick_size) {
                    None => None,
                    Some(price) => match exit_order(
                        state.config,
                        ctx,
                        price,
                        TimeInForce::PostOnly,
                    ) {
                        None => None,
                        Some(order) => Some(
                            (
                                RsiState {
                                    position: Some(
                                        OpenPosition {
                                            entry_price: fill.price.0,
                                            entry_bar_idx: match state.pending_entry {
                                                Some(pending) => pending.entry_bar_idx,
                                                None => state.bars_seen,
                                            },
                                            atr_at_entry: atr,
                                            tp_posted: true,
                                        },
                                    ),
                                    pending_entry: None,
                                    ..state
                                },
                                before.push(Action::CancelAll).push(order),
                            ),
                        ),
                    },
                },
            },
        }
    } else if fill.side == Side::Ask && fill.is_full {
        Some((RsiState { position: None, ..state }, before))
    } else {
        Some((state, before))
    }
}

/// Pulling an entry bid whose bar has passed.
pub open spec fn entry_expired(state: RsiState) -> (RsiState, Seq<Action>) {
    if state.pending_entry is Some && state.position is None && state.bars_seen > (
    state.pending_entry->0).entry_bar_idx {
        (RsiState { pending_entry: None, ..state }, seq![Action::CancelAll])
    } else {
        (state, Seq::empty())
    }
}

/// The rest of an event once the exits have let it pass.
pub open spec fn after_exits(
    state: RsiState,
    ctx: StrategyContext,
    event: MarketEvent,
    before: Seq<Action>,
) -> Option<(RsiState, Seq<Action>)> {
    match entry(state, ctx, event, before) {
        None => None,
        Some((state, actions)) => match event {
            MarketEvent::Fill(fill) => filled(state, ctx, fill, actions),
            _ => Some((state, actions)),
        },
    }
}

/// An event, before the deviation reading is used up.
pub open spec fn full_step(state: RsiState, ctx: StrategyContext, event: MarketEvent) -> Option<
    (RsiState, Seq<Action>),
> {
    match book_mid(ctx) {
        None => None,
        Some(mid) => match bars_after(state, ctx, event, mid) {
            None => None,
            Some(barred) => {
                let (state, first) = entry_expired(barred);
                match (state.position, mid) {
                    (Some(held), Some(mid)) => match exits(state, ctx, held, mid, first) {
                        None => None,
                        Some(Managed::Out(state, actions)) => Some((state, actions)),
                        Some(Managed::On(state, actions)) => after_exits(
                            state,
                            ctx,
                            event,
                            actions,
                        ),
                    },
                    _ => after_exits(state, ctx, event, first),
                }
            },
        },
    }
}

fn roll_price(bar: Bar, price: Decimal) -> (result: Bar)
    ensures
        result == bar_with_price(bar, price),
{
    let mut next = bar;
    next.close = price;
    if price.is_more(bar.high) {
        next.high = price;
    }
    if price.is_less(bar.low) {
        next.low = price;
    }
    next
}

fn single_price_bar(price: Decimal) -> (result: Bar)
    ensures
        result == point_bar(price),
{
    Bar { open: price, high: price, low: price, close: price, volume: Decimal::zero() }
}

proof fn lemma_average_is_between(bars: Seq<Bar>, n: nat, total: int, average: int)
    requires
        1 <= n < bars.len(),
        range_total(bars, n) is Some,
        range_total(bars, n)->0@ == total,
        ranges_add_exactly(bars, n),
        rounds_quotient(total, n * pow10(28), average),
        forall|j: int| 1 <= j <= n ==> (#[trigger] newest_range(bars, j)).parts_in_range(),
    ensures
        between_ranges(bars, n, average),
{
    let p = pow10(28);
    lemma_pow10_positive(28);
    assert forall|least: int|
        1 <= least <= n && (forall|k: int|
            1 <= k <= n ==> newest_range(bars, least)@ <= (#[trigger] newest_range(bars, k))@)
        implies (#[trigger] newest_range(bars, least))@ <= average by {
        let d = newest_range(bars, least);
        let v = d@;
        lemma_parts(d);
        let high = lemma_highest(bars, n, n);
        lemma_range_total_bounds(bars, n, n, v, high);
        assert(v * (n * p) <= total * p) by (nonlinear_arith)
            requires
                n * v <= total,
                p >= 1,
        ;
        lemma_quotient_keeps_order(total, n * p, average, mantissa_of(d), scale_of(d));
    }
    assert forall|greatest: int|
        1 <= greatest <= n && (forall|k: int|
            1 <= k <= n ==> newest_range(bars, greatest)@ >= (#[trigger] newest_range(bars, k))@)
        implies (#[trigger] newest_range(bars, greatest))@ >= average by {
        let d = newest_range(bars, greatest);
        let v = d@;
        lemma_parts(d);
        let low = lemma_lowest(bars, n, n);
        lemma_range_total_bounds(bars, n, n, low, v);
        assert(v * (n * p) >= total * p) by (nonlinear_arith)
            requires
                n * v >= total,
                p >= 1,
        ;
        lemma_quotient_keeps_order(total, n * p, average, mantissa_of(d), scale_of(d));
    }
}

proof fn lemma_highest(bars: Seq<Bar>, n: nat, k: nat) -> (high: int)
    requires
        k <= n,
    ensures
        forall|j: int| 1 <= j <= k ==> (#[trigger] newest_range(bars, j))@ <= high,
    decreases k,
{
    if k == 0 {
        0
    } else {
        let before = lemma_highest(bars, n, (k - 1) as nat);
        let last = newest_range(bars, k as int)@;
        if last > before {
            last
        } else {
            before
        }
    }
}

proof fn lemma_lowest(bars: Seq<Bar>, n: nat, k: nat) -> (low: int)
    requires
        k <= n,
    ensures
        forall|j: int| 1 <= j <= k ==> (#[trigger] newest_range(bars, j))@ >= low,
    decreases k,
{
    if k == 0 {
        0
    } else {
        let before = lemma_lowest(bars, n, (k - 1) as nat);
        let last = newest_range(bars, k as int)@;
        if last < before {
            last
        } else {
            before
        }
    }
}

impl RsiMr {
    fn bucket_of(&self, ts: Timestamp) -> (result: u64)
        ensures
            result == bucket(self.config, ts),
    {
        let interval_ns: u64 = saturating_product(self.config.bar_interval_secs, 1_000_000_000);
        if interval_ns == 0 {
            return 0;
        }
        ts.0 / interval_ns
    }

    fn see_price(&mut self, ts: Timestamp, price: Decimal)
        ensures
            final(self)@ == priced(old(self)@, ts, price),
    {
        let now: u64 = self.bucket_of(ts);
        match self.current_bucket {
            None => {
                self.current_bucket = Some(now);
                self.open_bar = Some(single_price_bar(price));
            },
            Some(b) => {
                if b != now {
                    if let Some(bar) = self.open_bar {
                        let ghost all = self.closed@.push(bar);
                        let ghost max = self.config.max_bars as int;
                        let ghost kept = *self;
                        self.closed.push_back(bar);
                        while self.closed.len() > self.config.max_bars
                            invariant
                                newest(self.closed@, max) =~= newest(all, max),
                                self.config.max_bars == max,
                                self@ == (RsiState { closed: self.closed@, ..kept@ }),
                            decreases self.closed@.len(),
                        {
                            let ghost before = self.closed@;
                            let _ = self.closed.pop_front();
                            assert(self.closed@ =~= before.drop_first());
                        }
                        self.bars_seen = self.bars_seen.saturating_add(1);
                    }
                    self.current_bucket = Some(now);
                    self.open_bar = Some(single_price_bar(price));
                }
            },
        }
        if let Some(bar) = self.open_bar {
            self.open_bar = Some(roll_price(bar, price));
        }
    }

    fn mid(ctx: &StrategyContext<'_>) -> (result: Option<Option<Decimal>>)
        ensures
            result == book_mid(*ctx),
    {
        if ctx.latest_book.bids.len() == 0 || ctx.latest_book.asks.len() == 0 {
            return Some(None);
        }
        let mid = try_midpoint(
            ctx.latest_book.bids[0].price.0,
            ctx.latest_book.asks[0].price.0,
        )?;
        Some(Some(mid))
    }

    fn take_in(
        &mut self,
        ctx: &StrategyContext<'_>,
        event: &MarketEvent,
        mid: Option<Decimal>,
    ) -> (result: Option<()>)
        ensures
            match bars_after(old(self)@, *ctx, *event, mid) {
                Some(state) => result is Some && final(self)@ == state,
                None => result is None,
            },
    {
        let price = match event {
            MarketEvent::BookUpdate { .. } => mid,
            MarketEvent::Trade { price, .. } => Some(price.0),
            _ => None,
        };
        if let Some(p) = price {
            if p.is_positive() {
                self.see_price(ctx.now, p);
            }
        }
        if let MarketEvent::Trade { size, .. } = event {
            if let Some(bar) = self.open_bar {
                let volume = bar.volume.checked_add(size.0)?;
                let mut next = bar;
                next.volume = volume;
                self.open_bar = Some(next);
            }
        }
        Some(())
    }

    /// Relative strength index of the closed bars, see [`rsi_of`]: between 0 and 100.
    pub fn rsi(&self) -> (result: Option<Option<Decimal>>)
        ensures
            result == rsi_of(self@.closed, self.config.rsi_period as nat),
            result matches Some(Some(rsi)) ==> 0 <= rsi@ <= whole(100)@,
    {
        proof {
            lemma_whole(0);
            lemma_whole(1);
            lemma_whole(100);
            lemma_pow10_positive(28);
        }
        let n: u64 = self.config.rsi_period as u64;
        let len: usize = self.closed.len();
        if (len as u64) <= n {
            return Some(None);
        }
        let n: usize = self.config.rsi_period as usize;
        let mut gain = Decimal::zero();
        let mut loss = Decimal::zero();
        let mut k: usize = 0;
        while k < n
            invariant
                len == self.closed@.len(),
                n == self.config.rsi_period,
                n < len,
                k <= n,
                gain_and_loss(self.closed@, k as nat) == Some((gain, loss)),
                gain@ >= 0,
                loss@ >= 0,
            decreases n - k,
        {
            k = k + 1;
            let newer = self.closed[len - k];
            let older = self.closed[len - k - 1];
            let ghost bars = self.closed@;
            let next = match newer.close.checked_sub(older.close) {
                None => None,
                Some(change) => if change.is_positive() {
                    match gain.checked_add(change) {
                        None => None,
                        Some(more) => Some((more, loss)),
                    }
                } else {
                    match loss.checked_sub(change) {
                        None => None,
                        Some(more) => Some((gain, more)),
                    }
                },
            };
            assert(next == gain_and_loss(bars, k as nat));
            match next {
                None => {
                    proof {
                        lemma_gain_and_loss_fails(bars, k as nat, n as nat);
                    }
                    return None;
                },
                Some((g, l)) => {
                    gain = g;
                    loss = l;
                },
            }
        }
        if loss.is_zero() {
            return Some(Some(Decimal::whole(100)));
        }
        let rs = gain.checked_div(loss)?;
        let hundred = Decimal::whole(100);
        let divisor = Decimal::one().checked_add(rs)?;
        let rest = hundred.checked_div(divisor)?;
        proof {
            let (d, p) = (divisor@, pow10(28));
            assert(100 * d >= 100 * p);
            lemma_quotient_keeps_whole_order(hundred@, d, rest@, 100);
        }
        Some(Some(hundred.checked_sub(rest)?))
    }

    /// Efficiency ratio of the closed bars, see [`ker_of`]: 1 for a pure trend and 0 for pure
    /// chop. Where no digit is lost in measuring there is one, and it lies between these two.
    pub fn ker(&self) -> (result: Option<Option<Decimal>>)
        ensures
            result == ker_of(self@.closed, self.config.ker_period as nat),
            result matches Some(Some(ker)) ==> ker@ >= 0,
            self@.closed.len() > self.config.ker_period && measures_exactly(
                self@.closed,
                self.config.ker_period as nat,
            ) ==> (result matches Some(Some(ker)) && tells_trend_from_chop(
                self@.closed,
                self.config.ker_period as nat,
                ker@,
            )),
    {
        proof {
            lemma_whole(0);
            lemma_pow10_positive(28);
        }
        let n: u64 = self.config.ker_period as u64;
        let len: usize = self.closed.len();
        if (len as u64) <= n {
            return Some(None);
        }
        let n: usize = self.config.ker_period as usize;
        let net = self.closed[len - 1].close.checked_sub(self.closed[len - 1 - n].close)?.abs();
        let mut path = Decimal::zero();
        let mut k: usize = 0;
        while k < n
            invariant
                len == self.closed@.len(),
                n == self.config.ker_period,
                n < len,
                k <= n,
                path_length(self.closed@, k as nat) == Some(path),
                path@ >= 0,
                measures_exactly(self.closed@, n as nat) ==> spans(
                    self.closed@,
                    n as nat,
                    k as int,
                    path@,
                ),
            decreases n - k,
        {
            k = k + 1;
            let ghost bars = self.closed@;
            assert(measures_exactly(bars, n as nat) ==> adds_change_exactly(bars, k as int));
            let next = match self.closed[len - k].close.checked_sub(
                self.closed[len - k - 1].close,
            ) {
                None => None,
                Some(change) => path.checked_add(change.abs()),
            };
            assert(next == path_length(bars, k as nat));
            match next {
                None => {
                    proof {
                        lemma_path_length_fails(bars, k as nat, n as nat);
                    }
                    return None;
                },
                Some(more) => {
                    path = more;
                },
            }
        }
        if path.is_zero() {
            return Some(Some(Decimal::zero()));
        }
        proof {
            let most = MAX_MANTISSA as int;
            let (a, b) = (net@, path@);
            assert(a <= b ==> 2 * a < b * (2 * most + 1)) by (nonlinear_arith)
                requires
                    b > 0,
                    most >= 1,
            ;
        }
        let ker = net.checked_div(path)?;
        proof {
            lemma_quotient_keeps_whole_order(net@, path@, ker@, 1);
        }
        Some(Some(ker))
    }

    fn true_range_of(bar: Bar, before: Bar) -> (result: Option<Decimal>)
        ensures
            result == true_range(bar, before),
            result is Some && exact_difference(bar.high, bar.low) && exact_difference(
                bar.high,
                before.close,
            ) && exact_difference(bar.low, before.close) ==> {
                let (range, up, down) = (
                    bar.high@ - bar.low@,
                    magnitude(bar.high@ - before.close@),
                    magnitude(bar.low@ - before.close@),
                );
                &&& result->0@ >= range && result->0@ >= up && result->0@ >= down
                &&& result->0@ == range || result->0@ == up || result->0@ == down
            },
    {
        let range = bar.high.checked_sub(bar.low)?;
        let up = bar.high.checked_sub(before.close)?.abs();
        let down = bar.low.checked_sub(before.close)?.abs();
        Some(range.max(up).max(down))
    }

    fn atr(&self) -> (result: Option<Option<Decimal>>)
        ensures
            result == atr_of(self@.closed, self.config.atr_period as nat),
            result matches Some(Some(atr)) ==> ranges_add_exactly(
                self@.closed,
                self.config.atr_period as nat,
            ) ==> between_ranges(self@.closed, self.config.atr_period as nat, atr@),
    {
        let n: u64 = self.config.atr_period as u64;
        let len: usize = self.closed.len();
        if n == 0 || (len as u64) <= n {
            return Some(None);
        }
        let n: usize = self.config.atr_period as usize;
        let mut total = Decimal::zero();
        let mut k: usize = 0;
        while k < n
            invariant
                len == self.closed@.len(),
                n == self.config.atr_period,
                n < len,
                k <= n,
                range_total(self.closed@, k as nat) == Some(total),
                forall|j: int|
                    1 <= j <= k ==> (#[trigger] newest_range(self.closed@, j)).parts_in_range(),
            decreases n - k,
        {
            k = k + 1;
            let ghost bars = self.closed@;
            let next = match Self::true_range_of(self.closed[len - k], self.closed[len - k - 1]) {
                None => None,
                Some(range) => {
                    proof {
                        use_type_invariant(&range);
                    }
                    total.checked_add(range)
                },
            };
            assert(next == range_total(bars, k as nat));
            match next {
                None => {
                    proof {
                        lemma_range_total_fails(bars, k as nat, n as nat);
                    }
                    return None;
                },
                Some(more) => {
                    total = more;
                },
            }
        }
        let count = Decimal::whole(self.config.atr_period as i64);
        let atr = total.checked_div(count)?;
        proof {
            let bars = self.closed@;
            let c = n as int;
            let p = pow10(28);
            lemma_whole(c);
            lemma_pow10_positive(28);
            assert(c * p > 0) by (nonlinear_arith)
                requires
                    c >= 1,
                    p >= 1,
            ;
            if ranges_add_exactly(bars, n as nat) {
                lemma_average_is_between(bars, n as nat, total@, atr@);
            }
        }
        Some(Some(atr))
    }

    fn volume_mean_and_variance(&self) -> (result: Option<Option<(Decimal, Decimal)>>)
        ensures
            result == volume_stats(self@.closed, self.config.vol_zscore_period as nat),
    {
        let n: u64 = self.config.vol_zscore_period as u64;
        let len: usize = self.closed.len();
        if (len as u64) <= n {
            return Some(None);
        }
        let n: usize = self.config.vol_zscore_period as usize;
        let count = Decimal::whole(self.config.vol_zscore_period as i64);
        let mut total = Decimal::zero();
        let mut k: usize = 0;
        while k < n
            invariant
                len == self.closed@.len(),
                n == self.config.vol_zscore_period,
                n < len,
                k <= n,
                volume_total(self.closed@, k as nat) == Some(total),
            decreases n - k,
        {
            k = k + 1;
            let ghost bars = self.closed@;
            let next = total.checked_add(self.closed[len - 1 - k].volume);
            assert(next == volume_total(bars, k as nat));
            match next {
                None => {
                    proof {
                        lemma_volume_total_fails(bars, k as nat, n as nat);
                    }
                    return None;
                },
                Some(more) => {
                    total = more;
                },
            }
        }
        let mean = total.checked_div(count)?;
        let mut squares = Decimal::zero();
        k = 0;
        while k < n
            invariant
                len == self.closed@.len(),
                n == self.config.vol_zscore_period,
                n < len,
                k <= n,
                square_total(self.closed@, mean, k as nat) == Some(squares),
                over(volume_total(self.closed@, n as nat), Some(whole(n as int))) == Some(mean),
            decreases n - k,
        {
            k = k + 1;
            let ghost bars = self.closed@;
            let next = match self.closed[len - 1 - k].volume.checked_sub(mean) {
                None => None,
                Some(distance) => match distance.checked_mul(distance) {
                    None => None,
                    Some(square) => squares.checked_add(square),
                },
            };
            assert(next == square_total(bars, mean, k as nat));
            match next {
                None => {
                    proof {
                        lemma_square_total_fails(bars, mean, k as nat, n as nat);
                    }
                    return None;
                },
                Some(more) => {
                    squares = more;
                },
            }
        }
        let variance = squares.checked_div(count)?;
        Some(Some((mean, variance)))
    }

    /// The variance of the volume that the z-score of `event` will need, taken over
    /// the bars as they will stand closed. The inner `None` is where there are too
    /// few; the outer where it cannot be represented.
    pub fn volume_variance_after(&self, ctx: &StrategyContext<'_>, event: &MarketEvent) -> (result:
        Option<Option<Decimal>>)
        ensures
            match book_mid(*ctx) {
                None => result is None,
                Some(mid) => match bars_after(self@, *ctx, *event, mid) {
                    None => result is None,
                    Some(next) => match volume_stats(
                        next.closed,
                        self@.config.vol_zscore_period as nat,
                    ) {
                        None => result is None,
                        Some(None) => result == Some(None::<Decimal>),
                        Some(Some((_, variance))) => result == Some(Some(variance)),
                    },
                },
            },
    {
        let mut next = RsiMr {
            config: self.config,
            closed: self.closed.clone(),
            open_bar: self.open_bar,
            current_bucket: self.current_bucket,
            bars_seen: self.bars_seen,
            position: self.position,
            pending_entry: self.pending_entry,
            deviation: self.deviation,
        };
        assert(next.closed@ =~= self.closed@);
        let mid = Self::mid(ctx)?;
        next.take_in(ctx, event, mid)?;
        match next.volume_mean_and_variance()? {
            None => Some(None),
            Some((_, variance)) => Some(Some(variance)),
        }
    }

    /// Hands in the standard deviation of the volume for the next event: zero where
    /// the variance is not positive, `None` where it has none.
    pub fn set_volume_deviation(&mut self, deviation: Option<Decimal>)
        ensures
            final(self)@ == (RsiState { deviation, ..old(self)@ }),
    {
        self.deviation = deviation;
    }

    fn vol_zscore(&self) -> (result: Option<Option<Decimal>>)
        ensures
            result == zscore_of(
                self@.closed,
                self.config.vol_zscore_period as nat,
                self.deviation,
            ),
    {
        let mean = match self.volume_mean_and_variance()? {
            None => {
                return Some(None);
            },
            Some((mean, _)) => mean,
        };
        let deviation = match self.deviation {
            None => {
                return Some(None);
            },
            Some(deviation) => deviation,
        };
        if deviation.is_zero() {
            return Some(Some(Decimal::zero()));
        }
        let len: usize = self.closed.len();
        let z = self.closed[len - 1].volume.checked_sub(mean)?.checked_div(deviation)?;
        Some(Some(z))
    }

    fn make_quote(&self, symbol: &Symbol, side: Side, price: Decimal, tif: TimeInForce) -> (result:
        Option<Action>)
        ensures
            result == sized_order(self.config, *symbol, side, price, tif),
    {
        let c = self.config;
        let size = try_lot_size(c.notional_per_order, Price(price), c.step_size, c.min_notional)?;
        Some(Action::Quote(make_intent(symbol, side, Price(price), size, tif)))
    }

    fn make_exit_quote(&self, ctx: &StrategyContext<'_>, price: Decimal, tif: TimeInForce)
        -> (result: Option<Action>)
        ensures
            result == exit_order(self.config, *ctx, price, tif),
    {
        let qty = try_stepped(ctx.position.size.0.abs(), self.config.step_size)?;
        if !qty.is_positive() {
            return self.make_quote(ctx.symbol, Side::Ask, price, tif);
        }
        Some(Action::Quote(make_intent(ctx.symbol, Side::Ask, Price(price), Size(qty), tif)))
    }

    fn give_up(&mut self, ctx: &StrategyContext<'_>, price: Decimal, actions: &mut Vec<Action>)
        -> (result: Option<()>)
        ensures
            match given_up(old(self)@, *ctx, Some(price), old(actions)@) {
                Some((state, all)) => result is Some && final(self)@ == state && final(actions)@
                    =~= all,
                None => result is None,
            },
    {
        let snapped = try_stepped(price, self.config.tick_size)?;
        let order = self.make_exit_quote(ctx, snapped, TimeInForce::IOC)?;
        actions.push(Action::CancelAll);
        actions.push(order);
        self.position = None;
        Some(())
    }

    fn manage(
        &mut self,
        ctx: &StrategyContext<'_>,
        held: OpenPosition,
        mid: Decimal,
        actions: &mut Vec<Action>,
    ) -> (result: Option<bool>)
        requires
            old(self)@.position == Some(held),
            ctx.latest_book.bids@.len() > 0,
            ctx.latest_book.asks@.len() > 0,
        ensures
            match exits(old(self)@, *ctx, held, mid, old(actions)@) {
                None => result is None,
                Some(Managed::Out(state, all)) => result == Some(true) && final(self)@ == state
                    && final(actions)@ =~= all,
                Some(Managed::On(state, all)) => result == Some(false) && final(self)@ == state
                    && final(actions)@ =~= all,
            },
    {
        let bid = ctx.latest_book.bids[0].price.0;
        let trigger = held.entry_price.checked_sub(
            held.atr_at_entry.checked_mul(self.config.atr_sl_mult)?,
        )?;
        if mid.is_less(trigger) {
            let price = bid.checked_sub(self.config.tick_size)?;
            self.give_up(ctx, price, actions)?;
            return Some(true);
        }
        let held_bars: u64 = self.bars_seen.saturating_sub(held.entry_bar_idx);
        if held_bars >= self.config.max_hold_bars as u64 {
            self.give_up(ctx, bid, actions)?;
            return Some(true);
        }
        if let Some(rsi) = self.rsi()? {
            if rsi.is_more(Decimal::whole(self.config.rsi_exit_threshold as i64)) {
                let ask = ctx.latest_book.asks[0].price.0;
                let price = try_stepped_up(ask, self.config.tick_size)?;
                let order = self.make_exit_quote(ctx, price, TimeInForce::PostOnly)?;
                actions.push(Action::CancelAll);
                actions.push(order);
                let mut posted = held;
                posted.tp_posted = true;
                self.position = Some(posted);
            }
        }
        Some(false)
    }

    fn signal(&self, ctx: &StrategyContext<'_>) -> (result: Option<Option<Decimal>>)
        ensures
            result == entry_signal(self@, *ctx),
    {
        let rsi = match self.rsi()? {
            Some(rsi) => rsi,
            None => {
                return Some(None);
            },
        };
        let ker = match self.ker()? {
            Some(ker) => ker,
            None => {
                return Some(None);
            },
        };
        let atr = match self.atr()? {
            Some(atr) => atr,
            None => {
                return Some(None);
            },
        };
        let z = match self.vol_zscore()? {
            Some(z) => z,
            None => {
                return Some(None);
            },
        };
        let buy_below = Decimal::whole(self.config.rsi_buy_threshold as i64);
        if ctx.latest_book.bids.len() > 0 && rsi.is_less(buy_below) && ker.is_less(
            self.config.ker_max_trending,
        ) && z.is_more(self.config.vol_zscore_min) && atr.is_positive() {
            Some(Some(atr))
        } else {
            Some(None)
        }
    }

    fn try_enter(
        &mut self,
        ctx: &StrategyContext<'_>,
        event: &MarketEvent,
        actions: &mut Vec<Action>,
    ) -> (result: Option<()>)
        ensures
            match entry(old(self)@, *ctx, *event, old(actions)@) {
                Some((state, all)) => result is Some && final(self)@ == state && final(actions)@
                    =~= all,
                None => result is None,
            },
    {
        if self.position.is_some() || self.pending_entry.is_some() {
            return Some(());
        }
        if let MarketEvent::BookUpdate { .. } = event {
            if let Some(atr) = self.signal(ctx)? {
                let price = try_stepped(
                    ctx.latest_book.bids[0].price.0,
                    self.config.tick_size,
                )?;
                let order = self.make_quote(ctx.symbol, Side::Bid, price, TimeInForce::PostOnly)?;
                actions.push(order);
                self.pending_entry = Some(
                    PendingEntry { entry_bar_idx: self.bars_seen, atr_at_entry: atr },
                );
            }
        }
        Some(())
    }

    fn take_fill(&mut self, ctx: &StrategyContext<'_>, fill: &Fill, actions: &mut Vec<Action>)
        -> (result: Option<()>)
        ensures
            match filled(old(self)@, *ctx, *fill, old(actions)@) {
                Some((state, all)) => result is Some && final(self)@ == state && final(actions)@
                    =~= all,
                None => result is None,
            },
    {
        if fill.side == Side::Bid && self.position.is_none() {
            let (atr, bar_idx) = match self.pending_entry {
                Some(pending) => (pending.atr_at_entry, pending.entry_bar_idx),
                None => match self.atr()? {
                    Some(atr) => (atr, self.bars_seen),
                    None => (Decimal::zero(), self.bars_seen),
                },
            };
            let target = fill.price.0.checked_add(atr.checked_mul(self.config.atr_tp_mult)?)?;
            let price = try_stepped_up(target, self.config.tick_size)?;
            let order = self.make_exit_quote(ctx, price, TimeInForce::PostOnly)?;
            self.pending_entry = None;
            self.position = Some(
                OpenPosition {
                    entry_price: fill.price.0,
                    entry_bar_idx: bar_idx,
                    atr_at_entry: atr,
                    tp_posted: true,
                },
            );
            actions.push(Action::CancelAll);
            actions.push(order);
        } else if fill.side == Side::Ask && fill.is_full {
            self.position = None;
        }
        Some(())
    }

    fn run_event(&mut self, ctx: &StrategyContext<'_>, event: &MarketEvent) -> (result: Option<
        Vec<Action>,
    >)
        ensures
            follows(full_step(old(self)@, *ctx, *event), result, final(self)@),
    {
        let mid = Self::mid(ctx)?;
        self.take_in(ctx, event, mid)?;
        let mut actions: Vec<Action> = Vec::new();
        if let Some(pending) = self.pending_entry {
            if self.position.is_none() && self.bars_seen > pending.entry_bar_idx {
                self.pending_entry = None;
                actions.push(Action::CancelAll);
            }
        }
        if let (Some(held), Some(mid)) = (self.position, mid) {
            if self.manage(ctx, held, mid, &mut actions)? {
                return Some(actions);
            }
        }
        self.try_enter(ctx, event, &mut actions)?;
        if let MarketEvent::Fill(fill) = event {
            self.take_fill(ctx, fill, &mut actions)?;
        }
        Some(actions)
    }
}

proof fn lemma_gain_and_loss_fails(bars: Seq<Bar>, k: nat, n: nat)
    requires
        k <= n,
        gain_and_loss(bars, k) is None,
    ensures
        gain_and_loss(bars, n) is None,
    decreases n - k,
{
    if k < n {
        lemma_gain_and_loss_fails(bars, k + 1, n);
    }
}

/// What the total movement over the newest `k` of `n` changes comes to: no less than the net
/// one, and no more where the close moves one way only.
spec fn spans(bars: Seq<Bar>, n: nat, k: int, path: int) -> bool {
    let net = bars[bars.len() - 1].close@ - bars[bars.len() - 1 - k].close@;
    &&& -path <= net <= path
    &&& closes_rise(bars, n) ==> path == net
    &&& closes_fall(bars, n) ==> path == -net
}

proof fn lemma_path_length_fails(bars: Seq<Bar>, k: nat, n: nat)
    requires
        k <= n,
        path_length(bars, k) is None,
    ensures
        path_length(bars, n) is None,
    decreases n - k,
{
    if k < n {
        lemma_path_length_fails(bars, k + 1, n);
    }
}

proof fn lemma_range_total_fails(bars: Seq<Bar>, k: nat, n: nat)
    requires
        k <= n,
        range_total(bars, k) is None,
    ensures
        range_total(bars, n) is None,
    decreases n - k,
{
    if k < n {
        lemma_range_total_fails(bars, k + 1, n);
    }
}

proof fn lemma_volume_total_fails(bars: Seq<Bar>, k: nat, n: nat)
    requires
        k <= n,
        volume_total(bars, k) is None,
    ensures
        volume_total(bars, n) is None,
    decreases n - k,
{
    if k < n {
        lemma_volume_total_fails(bars, k + 1, n);
    }
}

proof fn lemma_square_total_fails(bars: Seq<Bar>, mean: Decimal, k: nat, n: nat)
    requires
        k <= n,
        square_total(bars, mean, k) is None,
    ensures
        square_total(bars, mean, n) is None,
    decreases n - k,
{
    if k < n {
        lemma_square_total_fails(bars, mean, k + 1, n);
    }
}

impl Strategy for RsiMr {
    type Config = RsiMrConfig;

    open spec fn initial(config: RsiMrConfig) -> Option<RsiState> {
        Some(
            RsiState {
                config,
                closed: Seq::empty(),
                open_bar: None,
                current_bucket: None,
                bars_seen: 0,
                position: None,
                pending_entry: None,
                deviation: None,
            },
        )
    }

    open spec fn event_step(state: RsiState, ctx: StrategyContext, event: MarketEvent) -> Option<
        (RsiState, Seq<Action>),
    > {
        match full_step(state, ctx, event) {
            None => None,
            Some((next, actions)) => Some((RsiState { deviation: None, ..next }, actions)),
        }
    }

    open spec fn rejection_step(
        state: RsiState,
        ctx: StrategyContext,
        intent: QuoteIntent,
        reason: Seq<char>,
    ) -> Option<(RsiState, Seq<Action>)> {
        Some((state, Seq::empty()))
    }

    fn try_new(config: RsiMrConfig) -> (result: Option<RsiMr>) {
        Some(
            RsiMr {
                config,
                closed: VecDeque::new(),
                open_bar: None,
                current_bucket: None,
                bars_seen: 0,
                position: None,
                pending_entry: None,
                deviation: None,
            },
        )
    }

    fn name(&self) -> (result: &str)
        ensures
            result@ == "rsi-mr"@,
    {
        "rsi-mr"
    }

    fn try_on_event(&mut self, ctx: &StrategyContext<'_>, event: &MarketEvent) -> (result: Option<
        Vec<Action>,
    >) {
        let actions = self.run_event(ctx, event)?;
        self.deviation = None;
        Some(actions)
    }

    fn try_on_quote_rejected(
        &mut self,
        ctx: &StrategyContext<'_>,
        intent: &QuoteIntent,
        reason: &str,
    ) -> (result: Option<Vec<Action>>) {
        Some(Vec::new())
    }

    fn on_notional_updated(
        &mut self,
        ctx: &StrategyContext<'_>,
        notional_per_order: Decimal,
    ) -> (result: Vec<Action>)
        ensures
            result@ == Seq::<Action>::empty(),
            final(self)@ == (if notional_per_order@ > 0 {
                RsiState {
                    config: RsiMrConfig { notional_per_order, ..old(self)@.config },
                    ..old(self)@
                }
            } else {
                old(self)@
            }),
    {
        if notional_per_order.is_positive() {
            self.config.notional_per_order = notional_per_order;
        }
        Vec::new()
    }
}

/// The strategy is long-only: a bid is quoted only as an entry, on a book update
/// while no position is held and no entry is in flight.
pub proof fn law_bids_only_to_enter(state: RsiState, ctx: StrategyContext, event: MarketEvent)
    requires
        RsiMr::event_step(state, ctx, event) is Some,
        quotes_on((RsiMr::event_step(state, ctx, event)->0).1, Side::Bid),
    ensures
        event is BookUpdate,
        (RsiMr::event_step(state, ctx, event)->0).0.position is None,
        (RsiMr::event_step(state, ctx, event)->0).0.pending_entry is Some,
{
}

/// A position comes into being only through a bid fill: no other event opens one.
pub proof fn law_only_fills_open_positions(state: RsiState, ctx: StrategyContext, event: MarketEvent)
    requires
        RsiMr::event_step(state, ctx, event) is Some,
        state.position is None,
        (RsiMr::event_step(state, ctx, event)->0).0.position is Some,
    ensures
        event matches MarketEvent::Fill(fill) && fill.side == Side::Bid,
{
}

/// No more bars are kept than configured.
pub proof fn law_bars_are_bounded(state: RsiState, ctx: StrategyContext, event: MarketEvent)
    requires
        RsiMr::event_step(state, ctx, event) is Some,
        state.closed.len() <= state.config.max_bars,
    ensures
        (RsiMr::event_step(state, ctx, event)->0).0.closed.len() <= state.config.max_bars,
        (RsiMr::event_step(state, ctx, event)->0).0.config == state.config,
{
}

/// No event and no rejection calls for an order in another instrument.
pub proof fn law_quotes_its_instrument(
    state: RsiState,
    ctx: StrategyContext,
    event: MarketEvent,
    intent: QuoteIntent,
    reason: Seq<char>,
)
    ensures
        RsiMr::event_step(state, ctx, event) matches Some((_, actions)) ==> keeps_to(
            actions,
            *ctx.symbol,
        ),
        RsiMr::rejection_step(state, ctx, intent, reason) matches Some((_, actions)) ==> keeps_to(
            actions,
            *ctx.symbol,
        ),
{
}

/// The average true range lies between any bounds of the true ranges of the newest `n` bars;
/// where every one of them is the same, it is that range, whatever `n` is.
pub proof fn law_atr_lies_between_the_ranges(
    bars: Seq<Bar>,
    n: nat,
    average: Decimal,
    low: int,
    high: int,
)
    requires
        1 <= n < bars.len(),
        range_total(bars, n) is Some,
        ranges_add_exactly(bars, n),
        quotient(range_total(bars, n)->0, whole(n as int)) == Some(average),
        average@ * n == range_total(bars, n)->0@,
        forall|k: int| 1 <= k <= n ==> low <= (#[trigger] newest_range(bars, k))@ <= high,
    ensures
        atr_of(bars, n) is Some && atr_of(bars, n)->0 is Some,
        low <= (atr_of(bars, n)->0)->0@ <= high,
{
    lemma_range_total_bounds(bars, n, n, low, high);
    let (a, c) = (average@, n as int);
    assert(low <= a <= high) by (nonlinear_arith)
        requires
            c * low <= a * c <= c * high,
            c >= 1,
    ;
}

/// The relative strength index is the share of the gains in all changes, in per cent.
pub proof fn law_rsi_is_the_share_of_gains(
    bars: Seq<Bar>,
    n: nat,
    gain: Decimal,
    loss: Decimal,
    ratio: Decimal,
    divisor: Decimal,
    rest: Decimal,
    rsi: Decimal,
)
    requires
        n < bars.len(),
        gain_and_loss(bars, n) == Some((gain, loss)),
        loss@ > 0,
        gain@ >= 0,
        quotient(gain, loss) == Some(ratio),
        ratio@ * loss@ == gain@ * pow10(28),
        sum(whole(1), ratio) == Some(divisor),
        divisor@ == pow10(28) + ratio@,
        quotient(whole(100), divisor) == Some(rest),
        rest@ * divisor@ == 100 * pow10(28) * pow10(28),
        difference(whole(100), rest) == Some(rsi),
        rsi@ == 100 * pow10(28) - rest@,
    ensures
        rsi_of(bars, n) is Some && rsi_of(bars, n)->0 is Some,
        (rsi_of(bars, n)->0)->0@ * (gain@ + loss@) == 100 * gain@ * pow10(28),
{
    let (g, l, t, p) = (gain@, loss@, rest@, pow10(28));
    lemma_pow10_positive(28);
    let d = divisor@;
    assert(d * l == p * (l + g)) by (nonlinear_arith)
        requires
            d == p + ratio@,
            ratio@ * l == g * p,
    ;
    assert(p * (t * (l + g)) == p * (100 * p * l)) by (nonlinear_arith)
        requires
            t * d == 100 * p * p,
            d * l == p * (l + g),
    ;
    assert(t * (l + g) == 100 * p * l) by (nonlinear_arith)
        requires
            p * (t * (l + g)) == p * (100 * p * l),
            p >= 1,
    ;
    assert((100 * p - t) * (g + l) == 100 * g * p) by (nonlinear_arith)
        requires
            t * (l + g) == 100 * p * l,
    ;
}

/// A close above the one before counts as a gain of the difference, one below as a loss of it,
/// and neither counts for the other.
pub proof fn law_changes_are_gains_or_losses(
    bars: Seq<Bar>,
    k: nat,
    gain: Decimal,
    loss: Decimal,
    change: Decimal,
)
    requires
        k + 1 < bars.len(),
        gain_and_loss(bars, k) == Some((gain, loss)),
        difference(
            bars[bars.len() - k - 1].close,
            bars[bars.len() - k - 2].close,
        ) == Some(change),
        change@ == bars[bars.len() - k - 1].close@ - bars[bars.len() - k - 2].close@,
        exact_sum(gain, change),
        exact_difference(loss, change),
    ensures
        ({
            let (newer, older) = (bars[bars.len() - k - 1].close, bars[bars.len() - k - 2].close);
            let next = gain_and_loss(bars, k + 1);
            &&& next is Some
            &&& newer@ > older@ ==> (next->0).0@ == gain@ + (newer@ - older@) && (next->0).1 == loss
            &&& newer@ < older@ ==> (next->0).1@ == loss@ + (older@ - newer@) && (next->0).0 == gain
        }),
{
}

/// A bar spans the prices it has seen and closes at the last of them.
pub proof fn law_bar_spans_its_prices(bar: Bar, price: Decimal)
    ensures
        ({
            let next = bar_with_price(bar, price);
            &&& next.close == price && next.open == bar.open && next.volume == bar.volume
            &&& next.low@ <= price@ <= next.high@
            &&& next.low@ <= bar.low@ && bar.high@ <= next.high@
            &&& next.high == bar.high || next.high == price
            &&& next.low == bar.low || next.low == price
        }),
{
}

/// Two times fall into one bar exactly where the same whole number of intervals has passed.
pub proof fn law_bars_are_aligned(config: RsiMrConfig, ts: Timestamp)
    requires
        config.bar_interval_secs > 0,
        config.bar_interval_secs * 1_000_000_000 <= u64::MAX,
    ensures
        ({
            let interval = config.bar_interval_secs * 1_000_000_000;
            bucket(config, ts) * interval <= ts.0 < (bucket(config, ts) + 1) * interval
        }),
{
    let (t, i) = (ts.0 as int, config.bar_interval_secs * 1_000_000_000);
    assert(0 <= t / i <= t && (t / i) * i <= t < (t / i + 1) * i) by (nonlinear_arith)
        requires
            t >= 0,
            i >= 1,
    ;
}

/// The first price of a new interval closes the bar in progress and opens one at that price.
pub proof fn law_new_interval_closes_the_bar(
    state: RsiState,
    ts: Timestamp,
    price: Decimal,
    bar: Bar,
)
    requires
        state.open_bar == Some(bar),
        state.current_bucket is Some,
        state.closed.len() < state.config.max_bars,
    ensures
        ({
            let next = priced(state, ts, price);
            let same = bucket(state.config, ts) == state.current_bucket->0;
            &&& same ==> next.closed == state.closed && next.open_bar == Some(
                bar_with_price(bar, price),
            )
            &&& !same ==> next.closed =~= state.closed.push(bar) && next.open_bar is Some
                && next.open_bar->0.open == price && next.open_bar->0.close == price
                && next.open_bar->0.volume == whole(0)
        }),
{
}

/// The volume that a bar is compared with is that of the bars before it: its own does not count.
pub proof fn law_volume_baseline_excludes_the_newest(bars: Seq<Bar>, other: Bar, k: nat)
    requires
        k < bars.len(),
    ensures
        volume_total(bars.drop_last().push(other), k) == volume_total(bars, k),
    decreases k,
{
    if k > 0 {
        law_volume_baseline_excludes_the_newest(bars, other, (k - 1) as nat);
    }
}

/// The volume score counts the deviations that the newest volume lies above the mean of those
/// before it: negative below the mean.
pub proof fn law_zscore_measures_the_surprise(
    bars: Seq<Bar>,
    n: nat,
    mean: Decimal,
    variance: Decimal,
    deviation: Decimal,
    above: Decimal,
    z: Decimal,
)
    requires
        bars.len() > 0,
        volume_stats(bars, n) == Some(Some((mean, variance))),
        deviation@ > 0,
        difference(bars.last().volume, mean) == Some(above),
        above@ == bars.last().volume@ - mean@,
        quotient(above, deviation) == Some(z),
        z@ * deviation@ == above@ * pow10(28),
    ensures
        ({
            let score = zscore_of(bars, n, Some(deviation));
            &&& score is Some && score->0 is Some
            &&& (score->0)->0@ * deviation@ == (bars.last().volume@ - mean@) * pow10(28)
        }),
        zscore_of(bars, n, None) == Some(None::<Decimal>),
{
}

/// The mean volume is the total over the number of bars.
pub proof fn law_volume_mean(
    bars: Seq<Bar>,
    n: nat,
    total: Decimal,
    mean: Decimal,
    squares: Decimal,
    variance: Decimal,
)
    requires
        n < bars.len(),
        volume_total(bars, n) == Some(total),
        quotient(total, whole(n as int)) == Some(mean),
        mean@ * n == total@,
        square_total(bars, mean, n) == Some(squares),
        quotient(squares, whole(n as int)) == Some(variance),
        variance@ * n == squares@,
    ensures
        volume_stats(bars, n) matches Some(Some((m, v))) && m@ * n == total@ && v@ * n == squares@,
{
}

/// A position is given up where the mid falls through its stop, `atr_sl_mult` true ranges below
/// the entry, or where it has been held for its bars; it is kept otherwise.
pub proof fn law_exits_on_stop_or_timeout(
    state: RsiState,
    ctx: StrategyContext,
    held: OpenPosition,
    mid: Decimal,
    before: Seq<Action>,
    distance: Decimal,
    stop: Decimal,
)
    requires
        product(held.atr_at_entry, state.config.atr_sl_mult) == Some(distance),
        difference(held.entry_price, distance) == Some(stop),
        exits(state, ctx, held, mid, before) is Some,
    ensures
        exits(state, ctx, held, mid, before)->0 is Out <==> mid@ < stop@ || state.bars_seen
            - held.entry_bar_idx >= state.config.max_hold_bars || state.config.max_hold_bars == 0,
        exits(state, ctx, held, mid, before)->0 matches Managed::Out(next, actions)
            ==> next.position is None && actions.len() == before.len() + 2
            && actions[before.len() as int] is CancelAll,
{
}

/// An entry takes every gate: an oversold index, chop rather than trend, a surge of volume, a
/// positive true range and a bid to join.
pub proof fn law_entry_needs_every_gate(state: RsiState, ctx: StrategyContext)
    ensures
        entry_signal(state, ctx) matches Some(Some(atr)) ==> {
            let c = state.config;
            let rsi = rsi_of(state.closed, c.rsi_period as nat)->0->0;
            let ker = ker_of(state.closed, c.ker_period as nat)->0->0;
            let z = zscore_of(state.closed, c.vol_zscore_period as nat, state.deviation)->0->0;
            &&& rsi@ < c.rsi_buy_threshold * pow10(28)
            &&& ker@ < c.ker_max_trending@
            &&& z@ > c.vol_zscore_min@
            &&& atr@ > 0
            &&& atr_of(state.closed, c.atr_period as nat) == Some(Some(atr))
            &&& ctx.latest_book.bids@.len() > 0
        },
{
    lemma_whole(state.config.rsi_buy_threshold as int);
}

/// A fill of the entry bid posts the target `atr_tp_mult` true ranges above the fill, on the
/// tick grid, and remembers the fill as the entry.
pub proof fn law_target_stands_above_the_fill(
    state: RsiState,
    ctx: StrategyContext,
    fill: Fill,
    before: Seq<Action>,
    atr: Decimal,
    distance: Decimal,
    target: Decimal,
)
    requires
        fill.side is Bid,
        state.position is None,
        entry_atr(state) == Some(atr),
        product(atr, state.config.atr_tp_mult) == Some(distance),
        sum(fill.price.0, distance) == Some(target),
    ensures
        filled(state, ctx, fill, before) matches Some((next, actions)) ==> {
            &&& next.position is Some && next.position->0.entry_price == fill.price.0
                && next.position->0.atr_at_entry == atr
            &&& next.pending_entry is None
            &&& actions.len() == before.len() + 2
            &&& actions.last() matches Action::Quote(order) && order.side is Ask && Some(
                order.price.0,
            ) == stepped_up(Some(target), state.config.tick_size)
        },
{
}

/// An exit sells what the lot grid allows of the position; where there is none to see, the
/// configured notional.
pub proof fn law_exit_sells_the_position(
    config: RsiMrConfig,
    ctx: StrategyContext,
    price: Decimal,
    tif: TimeInForce,
    qty: Decimal,
)
    requires
        stepped(Some(absolute(ctx.position.size.0)), config.step_size) == Some(qty),
    ensures
        exit_order(config, ctx, price, tif) matches Some(action) ==> {
            let order = action->Quote_0;
            &&& action is Quote && order.side is Ask && order.price.0 == price && order.tif == tif
            &&& qty@ > 0 ==> order.size.0 == qty
            &&& qty@ <= 0 ==> lot_size(
                config.notional_per_order,
                price,
                config.step_size,
                config.min_notional,
            ) == Some(order.size.0)
        },
{
}

/// A stopped position is sold a tick through the best bid, one that was held too long at it, both
/// on the tick grid and at once; an index past its exit offers it at the best ask.
pub proof fn law_exits_are_priced_off_the_book(
    state: RsiState,
    ctx: StrategyContext,
    held: OpenPosition,
    mid: Decimal,
    before: Seq<Action>,
    distance: Decimal,
    stop: Decimal,
)
    requires
        product(held.atr_at_entry, state.config.atr_sl_mult) == Some(distance),
        difference(held.entry_price, distance) == Some(stop),
    ensures
        exits(state, ctx, held, mid, before) matches Some(Managed::Out(next, actions)) ==> {
            let order = actions.last()->Quote_0;
            let bid = ctx.latest_book.bids@[0].price.0;
            &&& actions.last() is Quote && order.side is Ask && order.tif is IOC
            &&& mid@ < stop@ ==> Some(order.price.0) == stepped(
                difference(bid, state.config.tick_size),
                state.config.tick_size,
            )
            &&& mid@ >= stop@ ==> Some(order.price.0) == stepped(
                Some(bid),
                state.config.tick_size,
            )
        },
        exits(state, ctx, held, mid, before) matches Some(Managed::On(next, actions))
            ==> actions.len() > before.len() ==> {
            let order = actions.last()->Quote_0;
            let rsi = rsi_of(state.closed, state.config.rsi_period as nat)->0->0;
            &&& rsi@ > state.config.rsi_exit_threshold * pow10(28)
            &&& actions.last() is Quote && order.side is Ask && order.tif is PostOnly
            &&& Some(order.price.0) == stepped_up(
                Some(ctx.latest_book.asks@[0].price.0),
                state.config.tick_size,
            )
        },
{
    lemma_whole(state.config.rsi_exit_threshold as int);
}

/// An entry joins the best bid on the tick grid, once: while it is pending or a position is held
/// no other is made.
pub proof fn law_entry_joins_the_bid_once(
    state: RsiState,
    ctx: StrategyContext,
    event: MarketEvent,
    before: Seq<Action>,
)
    ensures
        entry(state, ctx, event, before) matches Some((next, actions)) ==> {
            &&& state.position is Some || state.pending_entry is Some || !(event is BookUpdate)
                ==> next == state && actions == before
            &&& actions.len() > before.len() ==> {
                let order = actions.last()->Quote_0;
                &&& actions.last() is Quote && order.side is Bid && order.tif is PostOnly
                &&& Some(order.price.0) == stepped(
                    Some(ctx.latest_book.bids@[0].price.0),
                    state.config.tick_size,
                )
                &&& next.pending_entry is Some && next.pending_entry->0.entry_bar_idx
                    == state.bars_seen
            }
        },
{
}

/// An entry bid is pulled as soon as its bar has closed, and kept until then.
pub proof fn law_entry_expires_with_its_bar(state: RsiState, pending: PendingEntry)
    requires
        state.pending_entry == Some(pending),
        state.position is None,
    ensures
        state.bars_seen > pending.entry_bar_idx ==> entry_expired(state).0.pending_entry is None
            && entry_expired(state).1 == seq![Action::CancelAll],
        state.bars_seen <= pending.entry_bar_idx ==> entry_expired(state) == (
            state,
            Seq::<Action>::empty(),
        ),
{
}

/// A bar takes the mid of a book update and the price of a trade, and the size of a trade as
/// volume.
pub proof fn law_bars_take_prices_and_volume(
    state: RsiState,
    ctx: StrategyContext,
    event: MarketEvent,
    mid: Option<Decimal>,
)
    ensures
        bars_after(state, ctx, event, mid) matches Some(next) ==> {
            &&& event is BookUpdate && mid is Some && mid->0@ > 0 ==> next == priced(
                state,
                ctx.now,
                mid->0,
            )
            &&& event matches MarketEvent::Trade { price, size, .. } ==> price.0@ > 0 ==> {
                let seen = priced(state, ctx.now, price.0);
                &&& next.closed == seen.closed
                &&& seen.open_bar is Some ==> next.open_bar is Some && Some(
                    next.open_bar->0.volume,
                ) == sum(seen.open_bar->0.volume, size.0)
            }
            &&& event is Heartbeat ==> next == state
        },
{
}

/// The true range is the largest of the bar's own range and its reaches from the close before.
pub proof fn law_true_range_is_the_largest_reach(
    bar: Bar,
    before: Bar,
    range: Decimal,
    up: Decimal,
    down: Decimal,
)
    requires
        difference(bar.high, bar.low) == Some(range),
        difference(bar.high, before.close) == Some(up),
        difference(bar.low, before.close) == Some(down),
    ensures
        true_range(bar, before) matches Some(reach) && reach@ >= range@ && reach@ >= absolute(up)@
            && reach@ >= absolute(down)@ && (reach == range || reach == absolute(up) || reach
            == absolute(down)),
{
}

/// The spread of the volumes adds up the square of each one's distance from the mean.
pub proof fn law_variance_squares_the_distances(
    bars: Seq<Bar>,
    mean: Decimal,
    k: nat,
    distance: Decimal,
    square: Decimal,
    before: Decimal,
)
    requires
        k + 1 < bars.len(),
        square_total(bars, mean, k) == Some(before),
        difference(bars[bars.len() - 2 - k].volume, mean) == Some(distance),
        product(distance, distance) == Some(square),
        square@ * pow10(28) == distance@ * distance@,
        exact_sum(before, square),
    ensures
        square_total(bars, mean, k + 1) matches Some(total) && (total@ - before@) * pow10(28)
            == distance@ * distance@,
        volume_total(bars, k + 1) == plus(
            volume_total(bars, k),
            Some(bars[bars.len() - 2 - k].volume),
        ),
{
}

/// The efficiency of a window is its net move over the way its closes went.
pub proof fn law_efficiency_is_the_net_over_the_way(
    bars: Seq<Bar>,
    n: nat,
    net: Decimal,
    path: Decimal,
    share: Decimal,
)
    requires
        n < bars.len(),
        difference(bars[bars.len() - 1].close, bars[bars.len() - 1 - n].close) == Some(net),
        path_length(bars, n) == Some(path),
        path@ > 0,
        quotient(absolute(net), path) == Some(share),
        share@ * path@ == absolute(net)@ * pow10(28),
    ensures
        ker_of(bars, n) matches Some(Some(ker)) && ker@ * path@ == absolute(net)@ * pow10(28),
{
}

} // verus!
