//! A market maker for venues without fees that holds next to no inventory.
//!
//! It quotes a ladder on both sides for volume and leans hard on flattening:
//!
//! 1. The whole ladder shifts away from the inventory, and toward the heavier side of
//!    the book.
//! 2. The side that reduces the inventory is quoted heavier than the side that adds.
//! 3. While a position is held, a reducing order rests at break-even or better.
//!
//! Each cycle the wanted ladder is reconciled with what rests. Levels that still fit
//! are left in place and keep their queue position; only what changed is quoted,
//! requoted or cancelled.

use crate::decimal::{
    absolute, count_text, difference, digits, exact_difference, exact_product, greater,
    lemma_negated_whole, lemma_pow10_positive, lemma_quotient_keeps_whole_order, lemma_whole,
    lesser, magnitude, minus, negated, normalized, over, plus, pow10, product, quotient, sum,
    text_of, times, whole, Decimal,
};
use crate::grid::{grid, gridded, Grid};
use crate::market::{MarketEvent, Price, QuoteId, QuoteIntent, Side};
use crate::quoting::{
    compute_mid_strict, fraction, is_size_off, lemma_trips, mid_strict, size_is_off, trips,
    try_fraction,
};
use crate::strategy::{keeps_to, lemma_keeps_to_joined, Action, Strategy, StrategyContext};
use vstd::prelude::*;

verus! {

/// Configuration for [`FlatMm`].
#[derive(Clone, Copy, Debug)]
pub struct FlatMmConfig {
    /// Notional per ladder level before skew, in quote currency.
    pub notional_per_order: Decimal,
    /// Venue tick size. `0` means no rounding.
    pub tick_size: Decimal,
    /// Venue lot step size. `0` means no rounding.
    pub step_size: Decimal,
    /// Venue minimum order notional. `0` means none.
    pub min_notional: Decimal,
    /// Distance of the innermost level from the reservation price, in bps.
    pub inner_bps: Decimal,
    /// Spacing of the levels beyond the innermost, in bps.
    pub step_bps: Decimal,
    /// Levels per side.
    pub levels: u32,
    /// Largest shift of the ladder away from the inventory, in bps.
    pub reservation_skew_bps: Decimal,
    /// Largest shift of the ladder toward the heavier side of the book, in bps.
    pub imbalance_skew_bps: Decimal,
    /// Inventory value at which the skew is full. `0` disables it.
    pub skew_unit_notional: Decimal,
    /// Distance of the reducing order from the average entry, in bps. `0` disables it.
    pub flush_bps: Decimal,
    /// By how much the adding side grows while the position is underwater, in percent
    /// at full skew. `0` shrinks it instead.
    pub chase_boost_pct: Decimal,
    /// Fraction of the position that the reducing order is for.
    pub flush_frac: Decimal,
    /// Size factor for reducing levels on the losing side of the average entry.
    pub underwater_reduce_frac: Decimal,
}

/// The default settings for a tight book.
pub open spec fn flat_mm_defaults(notional_per_order: Decimal) -> Option<FlatMmConfig> {
    match product(notional_per_order, whole(20)) {
        None => None,
        Some(skew_unit_notional) => Some(
            FlatMmConfig {
                notional_per_order,
                tick_size: whole(0),
                step_size: whole(0),
                min_notional: whole(0),
                inner_bps: whole(1),
                step_bps: whole(1),
                levels: 5,
                reservation_skew_bps: whole(2),
                imbalance_skew_bps: whole(0),
                skew_unit_notional,
                flush_bps: whole(1),
                chase_boost_pct: whole(0),
                flush_frac: whole(1),
                underwater_reduce_frac: whole(1),
            },
        ),
    }
}

impl FlatMmConfig {
    /// The default settings for a tight book, or `None` where twenty times the notional
    /// cannot be represented.
    pub fn try_defaults(notional_per_order: Decimal) -> (result: Option<FlatMmConfig>)
        ensures
            result == flat_mm_defaults(notional_per_order),
    {
        let skew_unit_notional = notional_per_order.checked_mul(Decimal::whole(20))?;
        Some(
            FlatMmConfig {
                notional_per_order,
                tick_size: Decimal::zero(),
                step_size: Decimal::zero(),
                min_notional: Decimal::zero(),
                inner_bps: Decimal::one(),
                step_bps: Decimal::one(),
                levels: 5,
                reservation_skew_bps: Decimal::whole(2),
                imbalance_skew_bps: Decimal::zero(),
                skew_unit_notional,
                flush_bps: Decimal::one(),
                chase_boost_pct: Decimal::zero(),
                flush_frac: Decimal::one(),
                underwater_reduce_frac: Decimal::one(),
            },
        )
    }

    /// The default settings for a tight book.
    pub fn defaults(notional_per_order: Decimal) -> (result: FlatMmConfig)
        requires
            flat_mm_defaults(notional_per_order) is Some,
        ensures
            Some(result) == flat_mm_defaults(notional_per_order),
    {
        FlatMmConfig::try_defaults(notional_per_order).unwrap()
    }
}

/// One wanted order.
#[derive(Clone, Copy, Debug)]
pub struct Slot {
    /// Side.
    pub side: Side,
    /// Price before rounding.
    pub price: Decimal,
    /// Size before rounding.
    pub size: Decimal,
}

/// Flat-inventory market maker.
#[derive(Clone, Copy, Debug)]
pub struct FlatMm {
    /// Settings.
    pub config: FlatMmConfig,
    /// Venue grid.
    pub grid: Grid,
    /// Mid at which the ladder was last placed.
    pub last_quote_mid: Option<Decimal>,
}

impl View for FlatMm {
    type V = FlatMm;

    open spec fn view(&self) -> FlatMm {
        *self
    }
}

/// `a` cut to the range from minus one to one.
pub open spec fn unit_clamped(a: Decimal) -> Decimal {
    if a@ < negated(whole(1))@ {
        negated(whole(1))
    } else if a@ > whole(1)@ {
        whole(1)
    } else {
        a
    }
}

/// The inventory as a fraction of the full-skew inventory, between minus one and one.
pub open spec fn inventory_ratio(config: FlatMmConfig, inv_notional: Decimal) -> Option<Decimal> {
    if config.skew_unit_notional@ <= 0 {
        Some(whole(0))
    } else {
        match quotient(inv_notional, config.skew_unit_notional) {
            None => None,
            Some(ratio) => Some(unit_clamped(ratio)),
        }
    }
}

/// By how much the best bid outweighs the best ask, as a fraction of both.
pub open spec fn imbalance(ctx: StrategyContext) -> Option<Decimal> {
    let bid = if ctx.latest_book.bids@.len() > 0 {
        ctx.latest_book.bids@[0].size.0
    } else {
        whole(0)
    };
    let ask = if ctx.latest_book.asks@.len() > 0 {
        ctx.latest_book.asks@[0].size.0
    } else {
        whole(0)
    };
    match sum(bid, ask) {
        None => None,
        Some(total) => if total@ <= 0 {
            Some(whole(0))
        } else {
            over(difference(bid, ask), Some(total))
        },
    }
}

/// How the ladder leans.
#[derive(Clone, Copy, Debug)]
pub struct Lean {
    /// Price the ladder is laid around.
    pub reservation: Decimal,
    /// Size factor of the bids.
    pub bid_mult: Decimal,
    /// Size factor of the asks.
    pub ask_mult: Decimal,
    /// Distance of the innermost level, as a fraction.
    pub inner: Decimal,
    /// Spacing of the levels, as a fraction.
    pub step: Decimal,
}

/// Whether the mid is on the losing side of the average entry.
pub open spec fn underwater(inv: Decimal, avg: Decimal, mid: Decimal) -> bool {
    (inv@ > 0 && mid@ < avg@) || (inv@ < 0 && mid@ > avg@)
}

/// The price the ladder is laid around.
pub open spec fn reservation_price(
    config: FlatMmConfig,
    ctx: StrategyContext,
    mid: Decimal,
    ratio: Decimal,
) -> Option<Decimal> {
    let inv_term = times(fraction(config.reservation_skew_bps), Some(ratio));
    let imb_term = times(fraction(config.imbalance_skew_bps), imbalance(ctx));
    times(Some(mid), plus(minus(Some(whole(1)), inv_term), imb_term))
}

/// The size factor of the side that adds to the position.
pub open spec fn adding_mult(
    config: FlatMmConfig,
    inv: Decimal,
    avg: Decimal,
    mid: Decimal,
    ratio: Decimal,
) -> Option<Decimal> {
    if config.chase_boost_pct@ > 0 && underwater(inv, avg, mid) && avg@ > 0 {
        plus(
            Some(whole(1)),
            times(quotient(config.chase_boost_pct, whole(100)), Some(absolute(ratio))),
        )
    } else {
        match difference(whole(1), absolute(ratio)) {
            None => None,
            Some(rest) => Some(greater(rest, whole(0))),
        }
    }
}

/// How the ladder leans for the current inventory and book.
pub open spec fn leaned(config: FlatMmConfig, ctx: StrategyContext, mid: Decimal) -> Option<Lean> {
    let inv = ctx.position.size.0;
    let avg = ctx.position.avg_entry.0;
    match product(inv, mid) {
        None => None,
        Some(notional) => match inventory_ratio(config, notional) {
            None => None,
            Some(ratio) => match (
                reservation_price(config, ctx, mid, ratio),
                adding_mult(config, inv, avg, mid, ratio),
                sum(whole(1), absolute(ratio)),
                fraction(config.inner_bps),
                fraction(config.step_bps),
            ) {
                (Some(reservation), Some(add), Some(reduce), Some(inner), Some(step)) => Some(
                    Lean {
                        reservation,
                        bid_mult: if inv@ > 0 {
                            add
                        } else if inv@ < 0 {
                            reduce
                        } else {
                            whole(1)
                        },
                        ask_mult: if inv@ > 0 {
                            reduce
                        } else if inv@ < 0 {
                            add
                        } else {
                            whole(1)
                        },
                        inner,
                        step,
                    },
                ),
                _ => None,
            },
        },
    }
}

/// Whether an order on `side` at `price` would reduce the position at a loss.
pub open spec fn reduces_at_loss(ctx: StrategyContext, side: Side, price: Decimal) -> bool {
    let inv = ctx.position.size.0;
    let avg = ctx.position.avg_entry.0;
    match side {
        Side::Ask => inv@ > 0 && price@ < avg@,
        Side::Bid => inv@ < 0 && price@ > avg@,
    }
}

/// The size of a level: its share of the notional at its price, smaller where it would
/// reduce the position at a loss. Zero where the price is not positive.
pub open spec fn level_size(
    config: FlatMmConfig,
    ctx: StrategyContext,
    side: Side,
    mult: Decimal,
    price: Decimal,
) -> Option<Decimal> {
    if price@ <= 0 {
        Some(whole(0))
    } else {
        match over(product(config.notional_per_order, mult), Some(price)) {
            None => None,
            Some(size) => if ctx.position.avg_entry.0@ > 0 && config.underwater_reduce_frac@
                < whole(1)@ && reduces_at_loss(ctx, side, price) {
                product(size, config.underwater_reduce_frac)
            } else {
                Some(size)
            },
        }
    }
}

/// The order, where it has a price and a size.
pub open spec fn worthwhile(side: Side, price: Decimal, size: Decimal) -> Seq<Slot> {
    if price@ > 0 && size@ > 0 {
        seq![Slot { side, price, size }]
    } else {
        Seq::empty()
    }
}

/// The pair of orders on level `k`, counted from one.
pub open spec fn level(config: FlatMmConfig, ctx: StrategyContext, lean: Lean, k: int) -> Option<
    Seq<Slot>,
> {
    let off = plus(Some(lean.inner), product(lean.step, whole(k - 1)));
    match (
        times(Some(lean.reservation), minus(Some(whole(1)), off)),
        times(Some(lean.reservation), plus(Some(whole(1)), off)),
    ) {
        (Some(bid), Some(ask)) => match (
            level_size(config, ctx, Side::Bid, lean.bid_mult, bid),
            level_size(config, ctx, Side::Ask, lean.ask_mult, ask),
        ) {
            (Some(bid_size), Some(ask_size)) => Some(
                worthwhile(Side::Bid, bid, bid_size) + worthwhile(Side::Ask, ask, ask_size),
            ),
            _ => None,
        },
        _ => None,
    }
}

/// The orders on the first `n` levels.
pub open spec fn levels(config: FlatMmConfig, ctx: StrategyContext, lean: Lean, n: nat) -> Option<
    Seq<Slot>,
>
    decreases n,
{
    if n == 0 {
        Some(Seq::empty())
    } else {
        match levels(config, ctx, lean, (n - 1) as nat) {
            None => None,
            Some(slots) => match level(config, ctx, lean, n as int) {
                None => None,
                Some(more) => Some(slots + more),
            },
        }
    }
}

/// The price of the reducing order.
pub open spec fn flush_price(config: FlatMmConfig, ctx: StrategyContext) -> Option<Decimal> {
    let avg = ctx.position.avg_entry.0;
    if ctx.position.size.0@ > 0 {
        let touch = if ctx.latest_book.asks@.len() > 0 {
            ctx.latest_book.asks@[0].price.0
        } else {
            whole(0)
        };
        match times(Some(avg), plus(Some(whole(1)), fraction(config.flush_bps))) {
            None => None,
            Some(target) => Some(greater(target, touch)),
        }
    } else {
        match times(Some(avg), minus(Some(whole(1)), fraction(config.flush_bps))) {
            None => None,
            Some(target) => Some(
                if ctx.latest_book.bids@.len() > 0 && ctx.latest_book.bids@[0].price.0@ > 0 {
                    lesser(target, ctx.latest_book.bids@[0].price.0)
                } else {
                    target
                },
            ),
        }
    }
}

/// The side that reduces a position.
pub open spec fn flush_side(inv: Decimal) -> Side {
    if inv@ > 0 {
        Side::Ask
    } else {
        Side::Bid
    }
}

/// The reducing order, where there is one.
pub open spec fn flush(config: FlatMmConfig, ctx: StrategyContext) -> Option<Seq<Slot>> {
    let inv = ctx.position.size.0;
    if config.flush_bps@ <= 0 || ctx.position.avg_entry.0@ <= 0 || inv@ == 0 {
        Some(Seq::empty())
    } else {
        match (fraction(config.flush_bps), product(absolute(inv), config.flush_frac)) {
            (Some(_), Some(part)) => {
                let size = lesser(part, absolute(inv));
                if size@ <= 0 {
                    Some(Seq::empty())
                } else {
                    match flush_price(config, ctx) {
                        None => None,
                        Some(price) => Some(worthwhile(flush_side(inv), price, size)),
                    }
                }
            },
            _ => None,
        }
    }
}

/// The wanted ladder.
pub open spec fn ladder(config: FlatMmConfig, ctx: StrategyContext, mid: Decimal) -> Option<
    Seq<Slot>,
> {
    match leaned(config, ctx, mid) {
        None => None,
        Some(lean) => if config.levels * 2 + 1 > u32::MAX {
            None
        } else {
            match (levels(config, ctx, lean, config.levels as nat), flush(config, ctx)) {
                (Some(slots), Some(more)) => Some(slots + more),
                _ => None,
            }
        },
    }
}

/// Among the first `n` resting quotes, the unused one nearest to the slot, the last of
/// equally near ones, and its distance; with none within `tol`, no quote and `tol`.
pub open spec fn nearest(
    open: Seq<(QuoteId, QuoteIntent)>,
    used: Seq<bool>,
    slot: Slot,
    tol: Decimal,
    n: nat,
) -> Option<(Option<int>, Decimal)>
    decreases n,
{
    if n == 0 {
        Some((None, tol))
    } else {
        match nearest(open, used, slot, tol, (n - 1) as nat) {
            None => None,
            Some((best, best_d)) => if used[n - 1] || open[n - 1].1.side != slot.side {
                Some((best, best_d))
            } else {
                match difference(open[n - 1].1.price.0, slot.price) {
                    None => None,
                    Some(away) => Some(
                        if absolute(away)@ <= best_d@ {
                            (Some(n - 1), absolute(away))
                        } else {
                            (best, best_d)
                        },
                    ),
                }
            },
        }
    }
}

/// What matching slots to resting quotes amounts to.
#[verifier::ext_equal]
pub struct Matching {
    /// Quotes and requotes.
    pub actions: Seq<Action>,
    /// Which resting quotes stand for a slot.
    pub used: Seq<bool>,
}

/// The matching once one more slot has been dealt with.
pub open spec fn matched_slot(
    g: Grid,
    ctx: StrategyContext,
    half_gap: Decimal,
    done: Matching,
    slot: Slot,
) -> Option<Matching> {
    let open = ctx.open_quotes@;
    match product(slot.price, half_gap) {
        None => None,
        Some(tol) => match nearest(
            open,
            done.used,
            slot,
            greater(tol, whole(0)),
            open.len(),
        ) {
            None => None,
            Some((None, _)) => match gridded(g, *ctx.symbol, slot.side, slot.price, slot.size) {
                None => None,
                Some(intent) => Some(
                    Matching { actions: done.actions.push(Action::Quote(intent)), ..done },
                ),
            },
            Some((Some(i), _)) => match size_is_off(open[i].1.size.0, slot.size) {
                None => None,
                Some(false) => Some(Matching { used: done.used.update(i, true), ..done }),
                Some(true) => match gridded(g, *ctx.symbol, slot.side, slot.price, slot.size) {
                    None => None,
                    Some(intent) => Some(
                        Matching {
                            actions: done.actions.push(Action::Requote { id: open[i].0, intent }),
                            used: done.used.update(i, true),
                        },
                    ),
                },
            },
        },
    }
}

/// The slots matched to the resting quotes in turn.
pub open spec fn matched(
    g: Grid,
    ctx: StrategyContext,
    half_gap: Decimal,
    slots: Seq<Slot>,
) -> Option<Matching>
    decreases slots.len(),
{
    if slots.len() == 0 {
        Some(
            Matching {
                actions: Seq::empty(),
                used: Seq::new(ctx.open_quotes@.len(), |i: int| false),
            },
        )
    } else {
        match matched(g, ctx, half_gap, slots.drop_last()) {
            None => None,
            Some(done) => matched_slot(g, ctx, half_gap, done, slots.last()),
        }
    }
}

/// Cancels of the first `n` resting quotes that stand for no slot.
pub open spec fn stale_cancels(
    open: Seq<(QuoteId, QuoteIntent)>,
    used: Seq<bool>,
    n: nat,
) -> Seq<Action>
    decreases n,
{
    if n == 0 {
        Seq::empty()
    } else {
        let before = stale_cancels(open, used, (n - 1) as nat);
        if used[n - 1] {
            before
        } else {
            before.push(Action::Cancel(open[n - 1].0))
        }
    }
}

/// The actions that bring the resting quotes to the wanted ladder.
pub open spec fn ladder_reconciled(
    config: FlatMmConfig,
    g: Grid,
    ctx: StrategyContext,
    slots: Seq<Slot>,
) -> Option<Seq<Action>> {
    match over(fraction(config.step_bps), Some(whole(2))) {
        None => None,
        Some(half_gap) => match matched(g, ctx, half_gap, slots) {
            None => None,
            Some(done) => Some(
                done.actions + stale_cancels(
                    ctx.open_quotes@,
                    done.used,
                    ctx.open_quotes@.len(),
                ),
            ),
        },
    }
}

/// The actions of a full cycle; none on a one-sided book.
pub open spec fn requoted(state: FlatMm, ctx: StrategyContext) -> Option<Seq<Action>> {
    match mid_strict(*ctx.latest_book) {
        None => None,
        Some(None) => Some(Seq::empty()),
        Some(Some(mid)) => match ladder(state.config, ctx, mid.0) {
            None => None,
            Some(slots) => ladder_reconciled(state.config, state.grid, ctx, slots),
        },
    }
}

/// Whether the mid has travelled the quoted spread since the ladder was placed.
pub open spec fn moved_enough(state: FlatMm, mid: Decimal) -> Option<bool> {
    match times(fraction(state.config.inner_bps), Some(whole(2))) {
        None => None,
        Some(spread) => match state.last_quote_mid {
            Some(last) => if last@ > 0 {
                match difference(mid, last) {
                    None => None,
                    Some(moved) => match quotient(absolute(moved), last) {
                        None => None,
                        Some(rel) => Some(rel@ >= spread@),
                    },
                }
            } else {
                Some(true)
            },
            None => Some(true),
        },
    }
}

/// The state and actions that an event calls for.
pub open spec fn flat_mm_step(state: FlatMm, ctx: StrategyContext, event: MarketEvent) -> Option<
    (FlatMm, Seq<Action>),
> {
    match event {
        MarketEvent::Fill(_) => match (mid_strict(*ctx.latest_book), requoted(state, ctx)) {
            (Some(mid), Some(actions)) => Some(
                (
                    FlatMm {
                        last_quote_mid: match mid {
                            Some(mid) => Some(mid.0),
                            None => state.last_quote_mid,
                        },
                        ..state
                    },
                    actions,
                ),
            ),
            _ => None,
        },
        MarketEvent::BookUpdate { .. } => match mid_strict(*ctx.latest_book) {
            None => None,
            Some(None) => Some((state, Seq::empty())),
            Some(Some(mid)) => match moved_enough(state, mid.0) {
                None => None,
                Some(false) => Some((state, Seq::empty())),
                Some(true) => match requoted(state, ctx) {
                    None => None,
                    Some(actions) => Some(
                        (FlatMm { last_quote_mid: Some(mid.0), ..state }, actions),
                    ),
                },
            },
        },
        _ => Some((state, Seq::empty())),
    }
}

proof fn lemma_levels_fail(
    config: FlatMmConfig,
    ctx: StrategyContext,
    lean: Lean,
    less: nat,
    more: nat,
)
    requires
        less <= more,
        levels(config, ctx, lean, less) is None,
    ensures
        levels(config, ctx, lean, more) is None,
    decreases more,
{
    if less < more {
        lemma_levels_fail(config, ctx, lean, less, (more - 1) as nat);
    }
}

proof fn lemma_nearest_fails(
    open: Seq<(QuoteId, QuoteIntent)>,
    used: Seq<bool>,
    slot: Slot,
    tol: Decimal,
    less: nat,
    more: nat,
)
    requires
        less <= more,
        nearest(open, used, slot, tol, less) is None,
    ensures
        nearest(open, used, slot, tol, more) is None,
    decreases more,
{
    if less < more {
        lemma_nearest_fails(open, used, slot, tol, less, (more - 1) as nat);
    }
}

proof fn lemma_matching_fails(
    g: Grid,
    ctx: StrategyContext,
    half_gap: Decimal,
    slots: Seq<Slot>,
    n: int,
)
    requires
        0 <= n <= slots.len(),
        matched(g, ctx, half_gap, slots.take(n)) is None,
    ensures
        matched(g, ctx, half_gap, slots) is None,
    decreases slots.len() - n,
{
    if n < slots.len() {
        assert(slots.take(n + 1).drop_last() =~= slots.take(n));
        lemma_matching_fails(g, ctx, half_gap, slots, n + 1);
    } else {
        assert(slots.take(n) =~= slots);
    }
}

/// Whether no slot of a held position reduces it at a loss.
pub open spec fn none_at_loss(ctx: StrategyContext, slots: Seq<Slot>) -> bool {
    forall|i: int|
        0 <= i < slots.len() ==> !reduces_at_loss(
            ctx,
            (#[trigger] slots[i]).side,
            slots[i].price,
        )
}

fn push_worthwhile(slots: &mut Vec<Slot>, side: Side, price: Decimal, size: Decimal)
    ensures
        final(slots)@ =~= old(slots)@ + worthwhile(side, price, size),
{
    if price.is_positive() && size.is_positive() {
        slots.push(Slot { side, price, size });
    }
}

impl FlatMm {
    fn inv_ratio(&self, inv_notional: Decimal) -> (result: Option<Decimal>)
        ensures
            result == inventory_ratio(self.config, inv_notional),
    {
        if !self.config.skew_unit_notional.is_positive() {
            return Some(Decimal::zero());
        }
        let ratio = inv_notional.checked_div(self.config.skew_unit_notional)?;
        let one = Decimal::one();
        let minus_one = one.negate();
        Some(
            if ratio.is_less(minus_one) {
                minus_one
            } else if ratio.is_more(one) {
                one
            } else {
                ratio
            },
        )
    }

    fn book_imbalance(ctx: &StrategyContext<'_>) -> (result: Option<Decimal>)
        ensures
            result == imbalance(*ctx),
            result is Some && ctx.latest_book.bids@.len() > 0 && ctx.latest_book.asks@.len() > 0
                && ctx.latest_book.bids@[0].size.0@ >= ctx.latest_book.asks@[0].size.0@ >= 0
                ==> result->0@ >= 0,
            result is Some && ctx.latest_book.bids@.len() > 0 && ctx.latest_book.asks@.len() > 0
                && exact_difference(
                ctx.latest_book.bids@[0].size.0,
                ctx.latest_book.asks@[0].size.0,
            ) && ctx.latest_book.bids@[0].size.0@ <= ctx.latest_book.asks@[0].size.0@ ==> result->0@
                <= 0,
    {
        proof {
            lemma_whole(0);
        }
        let bid = if ctx.latest_book.bids.len() > 0 {
            ctx.latest_book.bids[0].size.0
        } else {
            Decimal::zero()
        };
        let ask = if ctx.latest_book.asks.len() > 0 {
            ctx.latest_book.asks[0].size.0
        } else {
            Decimal::zero()
        };
        let total = bid.checked_add(ask)?;
        if !total.is_positive() {
            return Some(Decimal::zero());
        }
        let heavier = bid.checked_sub(ask)?;
        let share = heavier.checked_div(total)?;
        proof {
            lemma_quotient_keeps_whole_order(heavier@, total@, share@, 0);
            assert(0 * total@ == 0 && 0 * pow10(28) == 0);
        }
        Some(share)
    }

    /// The price the ladder is laid around. Without a lean on the book it is not above
    /// the mid for a long and not below it for a short.
    pub fn try_reservation(&self, ctx: &StrategyContext<'_>, mid: Decimal, ratio: Decimal)
        -> (result: Option<Decimal>)
        ensures
            result == reservation_price(self.config, *ctx, mid, ratio),
            result is Some && mid@ >= 0 && self.config.reservation_skew_bps@ >= 0
                && self.config.imbalance_skew_bps@ == 0 ==> {
                &&& ratio@ >= 0 ==> result->0@ <= mid@
                &&& ratio@ <= 0 ==> result->0@ >= mid@
            },
    {
        proof {
            lemma_whole(1);
            lemma_pow10_positive(28);
        }
        let inv_term = try_fraction(self.config.reservation_skew_bps)?.checked_mul(ratio)?;
        let imb_term = try_fraction(self.config.imbalance_skew_bps)?.checked_mul(
            Self::book_imbalance(ctx)?,
        )?;
        mid.checked_mul(Decimal::one().checked_sub(inv_term)?.checked_add(imb_term)?)
    }

    fn try_adding_mult(&self, inv: Decimal, avg: Decimal, mid: Decimal, ratio: Decimal) -> (result:
        Option<Decimal>)
        ensures
            result == adding_mult(self.config, inv, avg, mid, ratio),
            result is Some && self.config.chase_boost_pct@ <= 0 ==> result->0@ <= whole(1)@,
    {
        proof {
            lemma_whole(1);
            lemma_pow10_positive(28);
        }
        let losing = (inv.is_positive() && mid.is_less(avg)) || (inv.is_negative() && mid.is_more(
            avg,
        ));
        if self.config.chase_boost_pct.is_positive() && losing && avg.is_positive() {
            let boost = self.config.chase_boost_pct.checked_div(Decimal::whole(100))?;
            Decimal::one().checked_add(boost.checked_mul(ratio.abs())?)
        } else {
            Some(Decimal::one().checked_sub(ratio.abs())?.max(Decimal::zero()))
        }
    }

    /// How the ladder leans. Without a chase the side that reduces the position is
    /// quoted no lighter than the plain size, and the other one no heavier.
    pub fn try_lean(&self, ctx: &StrategyContext<'_>, mid: Decimal) -> (result: Option<Lean>)
        ensures
            result == leaned(self.config, *ctx, mid),
            result is Some && self.config.chase_boost_pct@ <= 0 ==> {
                let inv = ctx.position.size.0@;
                let lean = result->0;
                &&& inv > 0 ==> lean.bid_mult@ <= whole(1)@ <= lean.ask_mult@
                &&& inv < 0 ==> lean.ask_mult@ <= whole(1)@ <= lean.bid_mult@
            },
    {
        proof {
            lemma_whole(1);
            lemma_pow10_positive(28);
        }
        let inv = ctx.position.size.0;
        let avg = ctx.position.avg_entry.0;
        let ratio = self.inv_ratio(inv.checked_mul(mid)?)?;
        let reservation = self.try_reservation(ctx, mid, ratio)?;
        let add = self.try_adding_mult(inv, avg, mid, ratio)?;
        let reduce = Decimal::one().checked_add(ratio.abs())?;
        let inner = try_fraction(self.config.inner_bps)?;
        let step = try_fraction(self.config.step_bps)?;
        let (bid_mult, ask_mult) = if inv.is_positive() {
            (add, reduce)
        } else if inv.is_negative() {
            (reduce, add)
        } else {
            (Decimal::one(), Decimal::one())
        };
        Some(Lean { reservation, bid_mult, ask_mult, inner, step })
    }

    fn try_level_size(
        &self,
        ctx: &StrategyContext<'_>,
        side: Side,
        mult: Decimal,
        price: Decimal,
    ) -> (result: Option<Decimal>)
        ensures
            result == level_size(self.config, *ctx, side, mult, price),
            result is Some && self.config.underwater_reduce_frac@ == 0
                && ctx.position.avg_entry.0@ > 0 && reduces_at_loss(*ctx, side, price)
                ==> result->0@ == 0,
    {
        if !price.is_positive() {
            return Some(Decimal::zero());
        }
        let inv = ctx.position.size.0;
        let avg = ctx.position.avg_entry.0;
        let frac = self.config.underwater_reduce_frac;
        let size = self.config.notional_per_order.checked_mul(mult)?.checked_div(price)?;
        let at_loss = match side {
            Side::Ask => inv.is_positive() && price.is_less(avg),
            Side::Bid => inv.is_negative() && price.is_more(avg),
        };
        proof {
            lemma_whole(1);
            lemma_pow10_positive(28);
        }
        if avg.is_positive() && frac.is_less(Decimal::one()) && at_loss {
            size.checked_mul(frac)
        } else {
            Some(size)
        }
    }

    fn push_level(
        &self,
        slots: &mut Vec<Slot>,
        ctx: &StrategyContext<'_>,
        lean: &Lean,
        k: u32,
    ) -> (result: Option<()>)
        requires
            k >= 1,
        ensures
            match level(self.config, *ctx, *lean, k as int) {
                Some(more) => result is Some && final(slots)@ =~= old(slots)@ + more && (
                self.config.underwater_reduce_frac@ == 0 && ctx.position.avg_entry.0@ > 0
                    ==> none_at_loss(*ctx, more)),
                None => result is None,
            },
    {
        let off = lean.inner.checked_add(lean.step.checked_mul(Decimal::whole((k - 1) as i64))?)?;
        let bid = lean.reservation.checked_mul(Decimal::one().checked_sub(off)?)?;
        let ask = lean.reservation.checked_mul(Decimal::one().checked_add(off)?)?;
        let bid_size = self.try_level_size(ctx, Side::Bid, lean.bid_mult, bid)?;
        let ask_size = self.try_level_size(ctx, Side::Ask, lean.ask_mult, ask)?;
        push_worthwhile(slots, Side::Bid, bid, bid_size);
        push_worthwhile(slots, Side::Ask, ask, ask_size);
        Some(())
    }

    fn try_flush_price(&self, ctx: &StrategyContext<'_>) -> (result: Option<Decimal>)
        requires
            self.config.flush_bps@ > 0,
            ctx.position.avg_entry.0@ > 0,
        ensures
            result == flush_price(self.config, *ctx),
            result is Some && ctx.position.size.0@ > 0 ==> result->0@
                >= ctx.position.avg_entry.0@,
            result is Some && ctx.position.size.0@ <= 0 && result->0@ > 0 ==> result->0@
                <= ctx.position.avg_entry.0@,
    {
        let avg = ctx.position.avg_entry.0;
        let f = try_fraction(self.config.flush_bps)?;
        proof {
            lemma_whole(1);
            lemma_pow10_positive(28);
        }
        if ctx.position.size.0.is_positive() {
            let touch = if ctx.latest_book.asks.len() > 0 {
                ctx.latest_book.asks[0].price.0
            } else {
                Decimal::zero()
            };
            Some(avg.checked_mul(Decimal::one().checked_add(f)?)?.max(touch))
        } else {
            let target = avg.checked_mul(Decimal::one().checked_sub(f)?)?;
            if ctx.latest_book.bids.len() > 0 && ctx.latest_book.bids[0].price.0.is_positive() {
                Some(target.min(ctx.latest_book.bids[0].price.0))
            } else {
                Some(target)
            }
        }
    }

    fn push_flush(&self, slots: &mut Vec<Slot>, ctx: &StrategyContext<'_>) -> (result: Option<()>)
        ensures
            match flush(self.config, *ctx) {
                Some(more) => result is Some && final(slots)@ =~= old(slots)@ + more
                    && none_at_loss(*ctx, more),
                None => result is None,
            },
    {
        let inv = ctx.position.size.0;
        let avg = ctx.position.avg_entry.0;
        if !self.config.flush_bps.is_positive() || !avg.is_positive() || inv.is_zero() {
            return Some(());
        }
        let _ = try_fraction(self.config.flush_bps)?;
        let size = inv.abs().checked_mul(self.config.flush_frac)?.min(inv.abs());
        if !size.is_positive() {
            return Some(());
        }
        let price = self.try_flush_price(ctx)?;
        let side = if inv.is_positive() {
            Side::Ask
        } else {
            Side::Bid
        };
        push_worthwhile(slots, side, price, size);
        Some(())
    }

    /// The wanted ladder for a mid, or `None` where a number it needs cannot be
    /// represented. With `underwater_reduce_frac` at zero nothing in it reduces the
    /// position at a loss.
    pub fn try_desired_ladder(&self, ctx: &StrategyContext<'_>, mid: Decimal) -> (result: Option<
        Vec<Slot>,
    >)
        ensures
            match ladder(self.config, *ctx, mid) {
                Some(slots) => result is Some && result->0@ =~= slots,
                None => result is None,
            },
            result is Some && self.config.underwater_reduce_frac@ == 0
                && ctx.position.avg_entry.0@ > 0 ==> none_at_loss(*ctx, result->0@),
    {
        let lean = self.try_lean(ctx, mid)?;
        let n: u32 = self.config.levels;
        let _ = n.checked_mul(2)?.checked_add(1)?;
        let mut slots: Vec<Slot> = Vec::new();
        let mut k: u32 = 0;
        while k < n
            invariant
                k <= n,
                n == self.config.levels,
                levels(self.config, *ctx, lean, k as nat) is Some,
                slots@ =~= levels(self.config, *ctx, lean, k as nat)->0,
                self.config.underwater_reduce_frac@ == 0 && ctx.position.avg_entry.0@ > 0
                    ==> none_at_loss(*ctx, slots@),
                leaned(self.config, *ctx, mid) == Some(lean),
                n * 2 + 1 <= u32::MAX,
            decreases n - k,
        {
            proof {
                if levels(self.config, *ctx, lean, (k + 1) as nat) is None {
                    lemma_levels_fail(self.config, *ctx, lean, (k + 1) as nat, n as nat);
                }
            }
            let ghost before = slots@;
            k = k + 1;
            self.push_level(&mut slots, ctx, &lean, k)?;
            proof {
                let more = level(self.config, *ctx, lean, k as int)->0;
                assert forall|i: int|
                    self.config.underwater_reduce_frac@ == 0 && ctx.position.avg_entry.0@ > 0 && 0
                        <= i < slots@.len() implies !reduces_at_loss(
                    *ctx,
                    (#[trigger] slots@[i]).side,
                    slots@[i].price,
                ) by {
                    if i < before.len() {
                        assert(slots@[i] == before[i]);
                    } else {
                        assert(slots@[i] == more[i - before.len()]);
                    }
                }
            }
        }
        let ghost before = slots@;
        self.push_flush(&mut slots, ctx)?;
        proof {
            let more = flush(self.config, *ctx)->0;
            assert forall|i: int|
                self.config.underwater_reduce_frac@ == 0 && ctx.position.avg_entry.0@ > 0 && 0 <= i
                    < slots@.len() implies !reduces_at_loss(
                *ctx,
                (#[trigger] slots@[i]).side,
                slots@[i].price,
            ) by {
                if i < before.len() {
                    assert(slots@[i] == before[i]);
                } else {
                    assert(slots@[i] == more[i - before.len()]);
                }
            }
        }
        Some(slots)
    }

    fn find_nearest(
        open: &[(QuoteId, QuoteIntent)],
        used: &Vec<bool>,
        slot: &Slot,
        tol: Decimal,
    ) -> (result: Option<Option<usize>>)
        requires
            used@.len() == open@.len(),
        ensures
            match nearest(open@, used@, *slot, tol, open@.len()) {
                Some((Some(i), _)) => result is Some && result->0 is Some && result->0->0 == i && 0
                    <= i < open@.len(),
                Some((None, _)) => result == Some(None::<usize>),
                None => result is None,
            },
    {
        let mut best: Option<usize> = None;
        let mut best_d = tol;
        let mut i: usize = 0;
        while i < open.len()
            invariant
                i <= open@.len(),
                used@.len() == open@.len(),
                nearest(open@, used@, *slot, tol, i as nat) is Some,
                (nearest(open@, used@, *slot, tol, i as nat)->0).1 == best_d,
                match best {
                    Some(b) => (nearest(open@, used@, *slot, tol, i as nat)->0).0 == Some(b as int)
                        && b < i,
                    None => (nearest(open@, used@, *slot, tol, i as nat)->0).0 is None,
                },
            decreases open@.len() - i,
        {
            proof {
                if nearest(open@, used@, *slot, tol, (i + 1) as nat) is None {
                    lemma_nearest_fails(
                        open@,
                        used@,
                        *slot,
                        tol,
                        (i + 1) as nat,
                        open@.len(),
                    );
                }
            }
            let intent = &open[i].1;
            if !used[i] && intent.side == slot.side {
                let d = intent.price.0.checked_sub(slot.price)?.abs();
                if d.is_at_most(best_d) {
                    best_d = d;
                    best = Some(i);
                }
            }
            i = i + 1;
        }
        Some(best)
    }

    fn match_slot(
        &self,
        ctx: &StrategyContext<'_>,
        half_gap: Decimal,
        slot: &Slot,
        actions: &mut Vec<Action>,
        used: &mut Vec<bool>,
    ) -> (result: Option<()>)
        requires
            old(used)@.len() == ctx.open_quotes@.len(),
        ensures
            match matched_slot(
                self.grid,
                *ctx,
                half_gap,
                Matching { actions: old(actions)@, used: old(used)@ },
                *slot,
            ) {
                Some(done) => result is Some && final(actions)@ =~= done.actions && final(used)@
                    =~= done.used && final(used)@.len() == ctx.open_quotes@.len(),
                None => result is None,
            },
    {
        let open = ctx.open_quotes;
        let tol = slot.price.checked_mul(half_gap)?.max(Decimal::zero());
        match Self::find_nearest(open, used, slot, tol)? {
            None => {
                let intent = self.grid.try_intent(ctx.symbol, slot.side, slot.price, slot.size)?;
                actions.push(Action::Quote(intent));
            },
            Some(i) => {
                let off = is_size_off(open[i].1.size.0, slot.size)?;
                used.set(i, true);
                if off {
                    let intent = self.grid.try_intent(
                        ctx.symbol,
                        slot.side,
                        slot.price,
                        slot.size,
                    )?;
                    actions.push(Action::Requote { id: open[i].0, intent });
                }
            },
        }
        Some(())
    }

    fn reconcile(&self, ctx: &StrategyContext<'_>, slots: &Vec<Slot>) -> (result: Option<
        Vec<Action>,
    >)
        ensures
            match ladder_reconciled(self.config, self.grid, *ctx, slots@) {
                Some(actions) => result is Some && result->0@ =~= actions,
                None => result is None,
            },
    {
        let open = ctx.open_quotes;
        let half_gap = try_fraction(self.config.step_bps)?.checked_div(Decimal::whole(2))?;
        let mut actions: Vec<Action> = Vec::new();
        let mut used: Vec<bool> = Vec::new();
        let mut i: usize = 0;
        while i < open.len()
            invariant
                i <= open@.len(),
                used@ =~= Seq::new(i as nat, |j: int| false),
            decreases open@.len() - i,
        {
            used.push(false);
            i = i + 1;
        }
        let mut k: usize = 0;
        assert(slots@.take(0) =~= Seq::empty());
        while k < slots.len()
            invariant
                k <= slots@.len(),
                open@ == ctx.open_quotes@,
                used@.len() == open@.len(),
                over(fraction(self.config.step_bps), Some(whole(2))) == Some(half_gap),
                matched(self.grid, *ctx, half_gap, slots@.take(k as int)) == Some(
                    Matching { actions: actions@, used: used@ },
                ),
            decreases slots@.len() - k,
        {
            proof {
                let longer = slots@.take(k + 1);
                assert(longer.drop_last() =~= slots@.take(k as int));
                assert(longer.last() == slots@[k as int]);
                if matched(self.grid, *ctx, half_gap, longer) is None {
                    lemma_matching_fails(self.grid, *ctx, half_gap, slots@, k + 1);
                }
            }
            self.match_slot(ctx, half_gap, &slots[k], &mut actions, &mut used)?;
            k = k + 1;
        }
        assert(slots@.take(k as int) =~= slots@);
        let ghost placed = actions@;
        let mut n: usize = 0;
        while n < open.len()
            invariant
                n <= open@.len(),
                used@.len() == open@.len(),
                actions@ =~= placed + stale_cancels(open@, used@, n as nat),
            decreases open@.len() - n,
        {
            if !used[n] {
                actions.push(Action::Cancel(open[n].0));
            }
            n = n + 1;
        }
        Some(actions)
    }

    fn requote(&self, ctx: &StrategyContext<'_>) -> (result: Option<Vec<Action>>)
        ensures
            match requoted(*self, *ctx) {
                Some(actions) => result is Some && result->0@ =~= actions,
                None => result is None,
            },
    {
        match compute_mid_strict(ctx.latest_book)? {
            None => Some(Vec::new()),
            Some(mid) => {
                let slots = self.try_desired_ladder(ctx, mid.0)?;
                self.reconcile(ctx, &slots)
            },
        }
    }

    fn has_moved_enough(&self, mid: Decimal) -> (result: Option<bool>)
        ensures
            result == moved_enough(*self, mid),
            result is Some ==> match self.last_quote_mid {
                None => result->0,
                Some(last) => {
                    let inner = fraction(self.config.inner_bps)->0;
                    &&& last@ <= 0 ==> result->0
                    &&& last@ > 0 && exact_difference(mid, last) && exact_product(inner, whole(2))
                        ==> trips(magnitude(mid@ - last@), last@, 2 * inner@, result->0)
                },
            },
    {
        let inner = try_fraction(self.config.inner_bps)?;
        let spread = inner.checked_mul(Decimal::whole(2))?;
        proof {
            use_type_invariant(&spread);
            lemma_whole(2);
            lemma_pow10_positive(28);
            let (s, i, p) = (spread@, inner@, pow10(28));
            assert(s * p == i * (2 * p) ==> s == 2 * i) by (nonlinear_arith)
                requires
                    p >= 1,
            ;
        }
        match self.last_quote_mid {
            Some(last) => {
                if last.is_positive() {
                    let away = mid.checked_sub(last)?.abs();
                    let rel = away.checked_div(last)?;
                    proof {
                        lemma_trips(away, last, rel, spread);
                    }
                    Some(rel.is_at_least(spread))
                } else {
                    Some(true)
                }
            },
            None => Some(true),
        }
    }
}

impl Strategy for FlatMm {
    type Config = FlatMmConfig;

    open spec fn initial(config: FlatMmConfig) -> Option<FlatMm> {
        match grid(config.tick_size, config.step_size, config.min_notional) {
            None => None,
            Some(grid) => Some(FlatMm { config, grid, last_quote_mid: None }),
        }
    }

    open spec fn event_step(state: FlatMm, ctx: StrategyContext, event: MarketEvent) -> Option<
        (FlatMm, Seq<Action>),
    > {
        flat_mm_step(state, ctx, event)
    }

    open spec fn rejection_step(
        state: FlatMm,
        ctx: StrategyContext,
        intent: QuoteIntent,
        reason: Seq<char>,
    ) -> Option<(FlatMm, Seq<Action>)> {
        match requoted(state, ctx) {
            None => None,
            Some(actions) => Some((state, actions)),
        }
    }

    fn try_new(config: FlatMmConfig) -> (result: Option<FlatMm>) {
        let grid = Grid::try_new(config.tick_size, config.step_size, config.min_notional)?;
        Some(FlatMm { config, grid, last_quote_mid: None })
    }

    fn name(&self) -> (result: &str)
        ensures
            result@ == "flat-mm"@,
    {
        "flat-mm"
    }

    fn try_on_event(&mut self, ctx: &StrategyContext<'_>, event: &MarketEvent) -> (result: Option<
        Vec<Action>,
    >) {
        match event {
            MarketEvent::Fill(_) => {
                if let Some(mid) = compute_mid_strict(ctx.latest_book)? {
                    self.last_quote_mid = Some(mid.0);
                }
                self.requote(ctx)
            },
            MarketEvent::BookUpdate { .. } => {
                let mid = match compute_mid_strict(ctx.latest_book)? {
                    Some(mid) => mid.0,
                    None => {
                        return Some(Vec::new());
                    },
                };
                if !self.has_moved_enough(mid)? {
                    return Some(Vec::new());
                }
                self.last_quote_mid = Some(mid);
                self.requote(ctx)
            },
            MarketEvent::Heartbeat { .. } | MarketEvent::Trade { .. } => Some(Vec::new()),
        }
    }

    fn try_on_quote_rejected(
        &mut self,
        ctx: &StrategyContext<'_>,
        intent: &QuoteIntent,
        reason: &str,
    ) -> (result: Option<Vec<Action>>) {
        self.requote(ctx)
    }

    fn on_notional_updated(
        &mut self,
        ctx: &StrategyContext<'_>,
        notional_per_order: Decimal,
    ) -> (result: Vec<Action>)
        ensures
            result@.len() == 0,
            final(self).config == (if notional_per_order@ > 0 {
                FlatMmConfig { notional_per_order, ..old(self).config }
            } else {
                old(self).config
            }),
            final(self).grid == old(self).grid,
            final(self).last_quote_mid == old(self).last_quote_mid,
    {
        if notional_per_order.is_positive() {
            self.config.notional_per_order = notional_per_order;
        }
        Vec::new()
    }

    fn status_metrics(&self) -> (result: Vec<(&'static str, String)>)
        ensures
            result@.len() == 4,
            result@[0].0@ == "step_bps"@,
            result@[0].1@ == text_of(normalized(self.config.step_bps)),
            result@[1].0@ == "levels"@,
            result@[1].1@ == digits(self.config.levels as int),
            result@[2].0@ == "skew_bps"@,
            result@[2].1@ == text_of(normalized(self.config.reservation_skew_bps)),
            result@[3].0@ == "flush_bps"@,
            result@[3].1@ == text_of(normalized(self.config.flush_bps)),
    {
        vec![
            ("step_bps", self.config.step_bps.normalize().to_text()),
            ("levels", count_text(self.config.levels)),
            ("skew_bps", self.config.reservation_skew_bps.normalize().to_text()),
            ("flush_bps", self.config.flush_bps.normalize().to_text()),
        ]
    }
}

/// The inventory ratio never leaves the range from minus one to one.
pub proof fn law_inventory_ratio_is_clamped(config: FlatMmConfig, inv_notional: Decimal)
    ensures
        inventory_ratio(config, inv_notional) matches Some(ratio) ==> -whole(1)@ <= ratio@
            <= whole(1)@,
{
    lemma_whole(0);
    lemma_whole(1);
    lemma_negated_whole(1);
    lemma_pow10_positive(28);
}

proof fn lemma_levels_worthwhile(
    config: FlatMmConfig,
    ctx: StrategyContext,
    lean: Lean,
    n: nat,
)
    ensures
        levels(config, ctx, lean, n) matches Some(slots) ==> forall|i: int|
            0 <= i < slots.len() ==> (#[trigger] slots[i]).price@ > 0 && slots[i].size@ > 0,
    decreases n,
{
    if n > 0 {
        lemma_levels_worthwhile(config, ctx, lean, (n - 1) as nat);
    }
}

/// Every wanted order has a positive price and a positive size.
pub proof fn law_slots_have_price_and_size(config: FlatMmConfig, ctx: StrategyContext, mid: Decimal)
    ensures
        ladder(config, ctx, mid) matches Some(slots) ==> forall|i: int|
            0 <= i < slots.len() ==> (#[trigger] slots[i]).price@ > 0 && slots[i].size@ > 0,
{
    if let Some(lean) = leaned(config, ctx, mid) {
        lemma_levels_worthwhile(config, ctx, lean, config.levels as nat);
    }
}

/// A book move of less than the quoted spread changes nothing.
pub proof fn law_small_moves_are_ignored(state: FlatMm, ctx: StrategyContext, event: MarketEvent)
    requires
        event is BookUpdate,
        mid_strict(*ctx.latest_book) is Some,
        mid_strict(*ctx.latest_book)->0 matches Some(mid) ==> moved_enough(state, mid.0) == Some(
            false,
        ),
    ensures
        FlatMm::event_step(state, ctx, event) == Some((state, Seq::<Action>::empty())),
{
}

proof fn lemma_nearest_is_unused(
    open: Seq<(QuoteId, QuoteIntent)>,
    used: Seq<bool>,
    slot: Slot,
    tol: Decimal,
    n: nat,
)
    ensures
        nearest(open, used, slot, tol, n) matches Some((Some(i), _)) ==> 0 <= i < n && !used[i]
            && open[i].1.side == slot.side,
    decreases n,
{
    if n > 0 {
        lemma_nearest_is_unused(open, used, slot, tol, (n - 1) as nat);
    }
}

/// Whether the action quotes, or requotes a resting order that stands for a slot.
pub open spec fn places(
    open: Seq<(QuoteId, QuoteIntent)>,
    used: Seq<bool>,
    action: Action,
) -> bool {
    match action {
        Action::Quote(_) => true,
        Action::Requote { id, .. } => exists|j: int|
            0 <= j < open.len() && #[trigger] used[j] && open[j].0 == id,
        _ => false,
    }
}

proof fn lemma_matching_places(g: Grid, ctx: StrategyContext, half_gap: Decimal, slots: Seq<Slot>)
    ensures
        matched(g, ctx, half_gap, slots) matches Some(done) ==> done.used.len()
            == ctx.open_quotes@.len() && forall|i: int|
            0 <= i < done.actions.len() ==> places(
                ctx.open_quotes@,
                done.used,
                #[trigger] done.actions[i],
            ),
    decreases slots.len(),
{
    if slots.len() > 0 {
        let open = ctx.open_quotes@;
        let slot = slots.last();
        lemma_matching_places(g, ctx, half_gap, slots.drop_last());
        if let Some(done) = matched(g, ctx, half_gap, slots.drop_last()) {
            if let Some(tol) = product(slot.price, half_gap) {
                lemma_nearest_is_unused(
                    open,
                    done.used,
                    slot,
                    greater(tol, whole(0)),
                    open.len(),
                );
            }
            if let Some(next) = matched(g, ctx, half_gap, slots) {
                assert forall|i: int| 0 <= i < next.actions.len() implies places(
                    open,
                    next.used,
                    #[trigger] next.actions[i],
                ) by {
                    if i < done.actions.len() {
                        assert(next.actions[i] == done.actions[i]);
                        if let Action::Requote { id, .. } = done.actions[i] {
                            let j = choose|j: int|
                                0 <= j < open.len() && #[trigger] done.used[j] && open[j].0 == id;
                            assert(next.used[j]);
                        }
                    } else if let Action::Requote { id, .. } = next.actions[i] {
                        let at = (nearest(
                            open,
                            done.used,
                            slot,
                            greater(product(slot.price, half_gap)->0, whole(0)),
                            open.len(),
                        )->0).0->0;
                        assert(next.used[at]);
                    }
                }
            }
        }
    }
}

proof fn lemma_stale_cancels(open: Seq<(QuoteId, QuoteIntent)>, used: Seq<bool>, n: nat)
    requires
        n <= open.len(),
    ensures
        forall|i: int|
            0 <= i < stale_cancels(open, used, n).len() ==> match #[trigger] stale_cancels(
                open,
                used,
                n,
            )[i] {
                Action::Cancel(id) => exists|j: int|
                    0 <= j < n && !#[trigger] used[j] && open[j].0 == id,
                _ => false,
            },
    decreases n,
{
    if n > 0 {
        let before = stale_cancels(open, used, (n - 1) as nat);
        let after = stale_cancels(open, used, n);
        lemma_stale_cancels(open, used, (n - 1) as nat);
        assert forall|i: int| 0 <= i < after.len() implies match #[trigger] after[i] {
            Action::Cancel(id) => exists|j: int|
                0 <= j < n && !#[trigger] used[j] && open[j].0 == id,
            _ => false,
        } by {
            if i < before.len() {
                assert(after[i] == before[i]);
                if let Action::Cancel(id) = before[i] {
                    let j = choose|j: int|
                        0 <= j < n - 1 && !#[trigger] used[j] && open[j].0 == id;
                    assert(!used[j]);
                }
            } else {
                assert(!used[n - 1]);
            }
        }
    }
}

/// Orders are maintained one by one, never all cancelled at once.
pub proof fn law_never_cancels_all(state: FlatMm, ctx: StrategyContext, event: MarketEvent)
    ensures
        FlatMm::event_step(state, ctx, event) matches Some((_, actions)) ==> forall|i: int|
            0 <= i < actions.len() ==> !((#[trigger] actions[i]) is CancelAll),
{
    if let Some(Some(mid)) = mid_strict(*ctx.latest_book) {
        if let Some(slots) = ladder(state.config, ctx, mid.0) {
            if let Some(half_gap) = over(fraction(state.config.step_bps), Some(whole(2))) {
                lemma_matching_places(state.grid, ctx, half_gap, slots);
                if let Some(done) = matched(state.grid, ctx, half_gap, slots) {
                    lemma_stale_cancels(ctx.open_quotes@, done.used, ctx.open_quotes@.len());
                }
            }
        }
    }
}

/// A resting order that stands for a wanted one is never cancelled: with distinct ids
/// no cycle both requotes and cancels an order.
pub proof fn law_requoted_orders_stay(
    config: FlatMmConfig,
    g: Grid,
    ctx: StrategyContext,
    slots: Seq<Slot>,
    i: int,
    j: int,
)
    requires
        forall|a: int, b: int|
            0 <= a < b < ctx.open_quotes@.len() ==> (#[trigger] ctx.open_quotes@[a]).0 != (
            #[trigger] ctx.open_quotes@[b]).0,
        ladder_reconciled(config, g, ctx, slots) is Some,
        0 <= i < ladder_reconciled(config, g, ctx, slots)->0.len(),
        0 <= j < ladder_reconciled(config, g, ctx, slots)->0.len(),
    ensures
        ladder_reconciled(config, g, ctx, slots)->0[i] matches Action::Requote { id, .. }
            ==> ladder_reconciled(config, g, ctx, slots)->0[j] != Action::Cancel(id),
{
    let open = ctx.open_quotes@;
    let half_gap = over(fraction(config.step_bps), Some(whole(2)))->0;
    let done = matched(g, ctx, half_gap, slots)->0;
    let stale = stale_cancels(open, done.used, open.len());
    let actions = done.actions + stale;
    lemma_matching_places(g, ctx, half_gap, slots);
    lemma_stale_cancels(open, done.used, open.len());
    if i >= done.actions.len() {
        assert(actions[i] == stale[i - done.actions.len()]);
    } else {
        assert(actions[i] == done.actions[i]);
        assert(places(open, done.used, done.actions[i]));
    }
    if j < done.actions.len() {
        assert(actions[j] == done.actions[j]);
        assert(places(open, done.used, done.actions[j]));
    } else {
        assert(actions[j] == stale[j - done.actions.len()]);
    }
}

proof fn lemma_matching_keeps_to(
    g: Grid,
    ctx: StrategyContext,
    half_gap: Decimal,
    slots: Seq<Slot>,
)
    ensures
        matched(g, ctx, half_gap, slots) matches Some(done) ==> keeps_to(
            done.actions,
            *ctx.symbol,
        ),
    decreases slots.len(),
{
    if slots.len() > 0 {
        lemma_matching_keeps_to(g, ctx, half_gap, slots.drop_last());
    }
}

proof fn lemma_requoted_keeps_to(state: FlatMm, ctx: StrategyContext)
    ensures
        requoted(state, ctx) matches Some(actions) ==> keeps_to(actions, *ctx.symbol),
{
    let open = ctx.open_quotes@;
    if let Some(Some(mid)) = mid_strict(*ctx.latest_book) {
        if let Some(slots) = ladder(state.config, ctx, mid.0) {
            if let Some(half_gap) = over(fraction(state.config.step_bps), Some(whole(2))) {
                lemma_matching_keeps_to(state.grid, ctx, half_gap, slots);
                if let Some(done) = matched(state.grid, ctx, half_gap, slots) {
                    lemma_stale_cancels(open, done.used, open.len());
                    lemma_keeps_to_joined(
                        done.actions,
                        stale_cancels(open, done.used, open.len()),
                        *ctx.symbol,
                    );
                }
            }
        }
    }
}

/// No event and no rejection calls for an order in another instrument.
pub proof fn law_quotes_its_instrument(
    state: FlatMm,
    ctx: StrategyContext,
    event: MarketEvent,
    intent: QuoteIntent,
    reason: Seq<char>,
)
    ensures
        FlatMm::event_step(state, ctx, event) matches Some((_, actions)) ==> keeps_to(
            actions,
            *ctx.symbol,
        ),
        FlatMm::rejection_step(state, ctx, intent, reason) matches Some((_, actions)) ==> keeps_to(
            actions,
            *ctx.symbol,
        ),
{
    lemma_requoted_keeps_to(state, ctx);
}

/// The side that reduces the position is quoted larger, by the share of the full inventory that
/// is held; the adding side smaller by as much, unless the chase is on and the position is
/// underwater; while flat both are quoted at the plain size.
pub proof fn law_ladder_leans_against_the_position(
    config: FlatMmConfig,
    ctx: StrategyContext,
    mid: Decimal,
    notional: Decimal,
    ratio: Decimal,
)
    requires
        product(ctx.position.size.0, mid) == Some(notional),
        inventory_ratio(config, notional) == Some(ratio),
    ensures
        leaned(config, ctx, mid) matches Some(lean) ==> {
            let inv = ctx.position.size.0;
            let avg = ctx.position.avg_entry.0;
            let more = sum(whole(1), absolute(ratio));
            let add = adding_mult(config, inv, avg, mid, ratio);
            &&& inv@ > 0 ==> Some(lean.ask_mult) == more && Some(lean.bid_mult) == add
            &&& inv@ < 0 ==> Some(lean.bid_mult) == more && Some(lean.ask_mult) == add
            &&& inv@ == 0 ==> lean.bid_mult == whole(1) && lean.ask_mult == whole(1)
            &&& Some(lean.inner) == quotient(config.inner_bps, whole(10_000))
            &&& Some(lean.step) == quotient(config.step_bps, whole(10_000))
        },
{
}

/// The adding side shrinks with the inventory, and never below nothing; with the chase on it
/// grows with it instead while the mid is on the losing side of the entry.
pub proof fn law_adding_side_shrinks_or_chases(
    config: FlatMmConfig,
    inv: Decimal,
    avg: Decimal,
    mid: Decimal,
    ratio: Decimal,
    rest: Decimal,
    boost: Decimal,
    extra: Decimal,
)
    requires
        avg@ > 0,
        difference(whole(1), absolute(ratio)) == Some(rest),
        quotient(config.chase_boost_pct, whole(100)) == Some(boost),
        product(boost, absolute(ratio)) == Some(extra),
    ensures
        ({
            let losing = inv@ > 0 && mid@ < avg@ || inv@ < 0 && mid@ > avg@;
            let mult = adding_mult(config, inv, avg, mid, ratio);
            &&& config.chase_boost_pct@ > 0 && losing ==> mult == sum(whole(1), extra)
            &&& config.chase_boost_pct@ <= 0 || !losing ==> mult == Some(
                if rest@ < whole(0)@ {
                    whole(0)
                } else {
                    rest
                },
            )
        }),
{
}

/// The price that the ladder is laid around leaves the mid against the inventory and towards
/// the thinner side of the book.
pub proof fn law_reservation_follows_inventory_and_book(
    config: FlatMmConfig,
    ctx: StrategyContext,
    mid: Decimal,
    ratio: Decimal,
    skew: Decimal,
    lean: Decimal,
    heavy: Decimal,
    pull: Decimal,
    less: Decimal,
    factor: Decimal,
)
    requires
        fraction(config.reservation_skew_bps) is Some,
        product(fraction(config.reservation_skew_bps)->0, ratio) == Some(skew),
        imbalance(ctx) == Some(heavy),
        fraction(config.imbalance_skew_bps) == Some(lean),
        product(lean, heavy) == Some(pull),
        difference(whole(1), skew) == Some(less),
        less@ == pow10(28) - skew@,
        sum(less, pull) == Some(factor),
        factor@ == less@ + pull@,
        exact_product(mid, factor),
    ensures
        reservation_price(config, ctx, mid, ratio) is Some,
        reservation_price(config, ctx, mid, ratio)->0@ * pow10(28) == mid@ * (pow10(28) - skew@
            + pull@),
{
}

/// Each level lies a step further from the reservation price than the one before, the bid below
/// it and the ask above.
pub proof fn law_levels_are_spaced(
    config: FlatMmConfig,
    ctx: StrategyContext,
    lean: Lean,
    k: int,
    off: Decimal,
)
    requires
        plus(Some(lean.inner), product(lean.step, whole(k - 1))) == Some(off),
    ensures
        level(config, ctx, lean, k) matches Some(slots) ==> forall|i: int|
            0 <= i < slots.len() ==> {
                let slot = #[trigger] slots[i];
                &&& slot.side is Bid ==> Some(slot.price) == times(
                    Some(lean.reservation),
                    difference(whole(1), off),
                ) && Some(slot.size) == level_size(
                    config,
                    ctx,
                    Side::Bid,
                    lean.bid_mult,
                    slot.price,
                )
                &&& slot.side is Ask ==> Some(slot.price) == times(
                    Some(lean.reservation),
                    sum(whole(1), off),
                ) && Some(slot.size) == level_size(
                    config,
                    ctx,
                    Side::Ask,
                    lean.ask_mult,
                    slot.price,
                )
            },
{
}

/// A level is worth its share of the notional; one that would reduce the position at a loss is
/// cut to a fraction of that, and no other is.
pub proof fn law_losing_reductions_are_cut(
    config: FlatMmConfig,
    ctx: StrategyContext,
    side: Side,
    mult: Decimal,
    price: Decimal,
    size: Decimal,
)
    requires
        price@ > 0,
        over(product(config.notional_per_order, mult), Some(price)) == Some(size),
    ensures
        ({
            let inv = ctx.position.size.0;
            let avg = ctx.position.avg_entry.0;
            let at_loss = side is Ask && inv@ > 0 && price@ < avg@ || side is Bid && inv@ < 0
                && price@ > avg@;
            let cut = at_loss && avg@ > 0 && config.underwater_reduce_frac@ < whole(1)@;
            &&& cut ==> level_size(config, ctx, side, mult, price) == product(
                size,
                config.underwater_reduce_frac,
            )
            &&& !cut ==> level_size(config, ctx, side, mult, price) == Some(size)
        }),
{
}

/// The flush offers no more than the position, on the side against it, at its distance beyond
/// the entry or at the touch, whichever is the better price.
pub proof fn law_flush_is_the_better_price(config: FlatMmConfig, ctx: StrategyContext)
    requires
        ctx.latest_book.bids@.len() > 0,
        ctx.latest_book.asks@.len() > 0,
        ctx.latest_book.bids@[0].price.0@ > 0,
    ensures
        flush(config, ctx) matches Some(slots) ==> slots.len() > 0 ==> {
            let slot = slots[0];
            let inv = ctx.position.size.0;
            let avg = ctx.position.avg_entry.0;
            let up = times(Some(avg), plus(Some(whole(1)), fraction(config.flush_bps)));
            let down = times(Some(avg), minus(Some(whole(1)), fraction(config.flush_bps)));
            let (bid, ask) = (ctx.latest_book.bids@[0].price.0, ctx.latest_book.asks@[0].price.0);
            &&& slots.len() == 1 && config.flush_bps@ > 0 && inv@ != 0
            &&& slot.size@ <= absolute(inv)@
            &&& slot.size@ <= product(absolute(inv), config.flush_frac)->0@
            &&& inv@ > 0 ==> slot.side is Ask && slot.price@ >= ask@ && slot.price@ >= up->0@ && (
            slot.price == ask || Some(slot.price) == up)
            &&& inv@ < 0 ==> slot.side is Bid && slot.price@ <= bid@ && slot.price@ <= down->0@ && (
            slot.price == bid || Some(slot.price) == down)
        },
{
}

/// A slot is served by an unused quote of its own side within the tolerance, to whose price none
/// of them is nearer.
pub proof fn law_nearest_quote_serves(
    open: Seq<(QuoteId, QuoteIntent)>,
    used: Seq<bool>,
    slot: Slot,
    tol: Decimal,
    n: nat,
    j: int,
)
    requires
        n <= open.len(),
        nearest(open, used, slot, tol, n) is Some,
    ensures
        ({
            let (best, distance) = nearest(open, used, slot, tol, n)->0;
            &&& distance@ <= tol@
            &&& best is None ==> distance == tol
            &&& best matches Some(i) ==> 0 <= i < n && !used[i] && open[i].1.side == slot.side
                && difference(open[i].1.price.0, slot.price) is Some && distance == absolute(
                difference(open[i].1.price.0, slot.price)->0,
            )
            &&& 0 <= j < n && !used[j] && open[j].1.side == slot.side ==> {
                let away = difference(open[j].1.price.0, slot.price);
                &&& away is Some
                &&& absolute(away->0)@ >= distance@
                &&& absolute(away->0)@ <= tol@ ==> best is Some
            }
        }),
    decreases n,
{
    if n > 0 {
        law_nearest_quote_serves(open, used, slot, tol, (n - 1) as nat, j);
    }
}

/// Every resting quote that serves no slot is cancelled, and no other is.
pub proof fn law_stale_quotes_are_cancelled(
    open: Seq<(QuoteId, QuoteIntent)>,
    used: Seq<bool>,
    n: nat,
    j: int,
)
    requires
        0 <= j < n <= open.len(),
    ensures
        !used[j] ==> stale_cancels(open, used, n).contains(Action::Cancel(open[j].0)),
        forall|i: int|
            0 <= i < stale_cancels(open, used, n).len() ==> exists|k: int|
                0 <= k < n && !(#[trigger] used[k]) && (#[trigger] stale_cancels(open, used, n)[i])
                    == Action::Cancel(open[k].0),
    decreases n,
{
    let before = stale_cancels(open, used, (n - 1) as nat);
    let after = stale_cancels(open, used, n);
    if n > 1 {
        law_stale_quotes_are_cancelled(
            open,
            used,
            (n - 1) as nat,
            if j < n - 1 {
                j
            } else {
                0
            },
        );
    }
    if !used[j] {
        if j == n - 1 {
            assert(after.last() == Action::Cancel(open[j].0));
        } else {
            let k = choose|k: int| 0 <= k < before.len() && before[k] == Action::Cancel(open[j].0);
            assert(after[k] == before[k]);
        }
    }
    assert forall|i: int| 0 <= i < after.len() implies exists|k: int|
        0 <= k < n && !(#[trigger] used[k]) && (#[trigger] after[i]) == Action::Cancel(
            open[k].0,
        ) by {
        if i < before.len() {
            assert(after[i] == before[i]);
            let k = choose|k: int|
                0 <= k < n - 1 && !(#[trigger] used[k]) && before[i] == Action::Cancel(open[k].0);
            assert(!used[k]);
        } else {
            assert(!used[n - 1]);
        }
    }
}

/// The ladder is laid anew where the mid has moved by twice the inner distance since it was laid.
pub proof fn law_ladder_follows_the_mid(
    state: FlatMm,
    mid: Decimal,
    last: Decimal,
    inner: Decimal,
    spread: Decimal,
    moved: Decimal,
    share: Decimal,
)
    requires
        state.last_quote_mid == Some(last),
        last@ > 0,
        fraction(state.config.inner_bps) == Some(inner),
        product(inner, whole(2)) == Some(spread),
        spread@ == 2 * inner@,
        difference(mid, last) == Some(moved),
        quotient(absolute(moved), last) == Some(share),
        share@ * last@ == absolute(moved)@ * pow10(28),
    ensures
        moved_enough(state, mid) == Some(absolute(moved)@ * pow10(28) >= 2 * inner@ * last@),
        moved_enough(FlatMm { last_quote_mid: None, ..state }, mid) == Some(true),
{
    let (s, l, m, p, t) = (share@, last@, absolute(moved)@, pow10(28), 2 * inner@);
    assert((s >= t) == (m * p >= t * l)) by (nonlinear_arith)
        requires
            s * l == m * p,
            l > 0,
    ;
}

/// The book leans to the side with more size at the touch: up where that is the bid.
pub proof fn law_imbalance_leans_to_the_heavier_side(
    ctx: StrategyContext,
    total: Decimal,
    heavier: Decimal,
    share: Decimal,
)
    requires
        ctx.latest_book.bids@.len() > 0,
        ctx.latest_book.asks@.len() > 0,
        sum(ctx.latest_book.bids@[0].size.0, ctx.latest_book.asks@[0].size.0) == Some(total),
        total@ > 0,
        difference(
            ctx.latest_book.bids@[0].size.0,
            ctx.latest_book.asks@[0].size.0,
        ) == Some(heavier),
        heavier@ == ctx.latest_book.bids@[0].size.0@ - ctx.latest_book.asks@[0].size.0@,
        quotient(heavier, total) == Some(share),
        share@ * total@ == heavier@ * pow10(28),
    ensures
        imbalance(ctx) matches Some(lean) && lean@ * total@ == (ctx.latest_book.bids@[0].size.0@
            - ctx.latest_book.asks@[0].size.0@) * pow10(28),
{
}

/// The inventory counts as a fraction of the full-skew one, and as no more than all of it.
pub proof fn law_inventory_counts_up_to_full(
    config: FlatMmConfig,
    inv_notional: Decimal,
    ratio: Decimal,
)
    requires
        config.skew_unit_notional@ > 0,
        quotient(inv_notional, config.skew_unit_notional) == Some(ratio),
    ensures
        ratio@ > whole(1)@ ==> inventory_ratio(config, inv_notional) == Some(whole(1)),
        negated(whole(1))@ <= ratio@ <= whole(1)@ ==> inventory_ratio(config, inv_notional)
            == Some(ratio),
        ratio@ < negated(whole(1))@ && ratio@ <= whole(1)@ ==> inventory_ratio(config, inv_notional)
            == Some(negated(whole(1))),
{
    lemma_whole(1);
    lemma_whole(-1);
    lemma_negated_whole(1);
    lemma_pow10_positive(28);
}

/// A fill and a far enough move lay the ladder anew at the current mid; nothing else does.
pub proof fn law_ladder_is_laid_on_fills_and_moves(
    state: FlatMm,
    ctx: StrategyContext,
    event: MarketEvent,
    mid: Price,
)
    requires
        mid_strict(*ctx.latest_book) == Some(Some(mid)),
    ensures
        flat_mm_step(state, ctx, event) matches Some((next, actions)) ==> {
            let due = event is Fill || event is BookUpdate && moved_enough(state, mid.0) == Some(
                true,
            );
            &&& due ==> next.last_quote_mid == Some(mid.0) && Some(actions) == requoted(state, ctx)
            &&& !due ==> next == state && actions.len() == 0
        },
{
}

/// A slot that a resting quote serves costs nothing, or a correction of its size; any other slot
/// costs a new quote on the grid. Either way the quote is used once.
pub proof fn law_slots_are_served_or_quoted(
    g: Grid,
    ctx: StrategyContext,
    half_gap: Decimal,
    done: Matching,
    slot: Slot,
    tol: Decimal,
    best: Option<int>,
    distance: Decimal,
)
    requires
        product(slot.price, half_gap) == Some(tol),
        nearest(
            ctx.open_quotes@,
            done.used,
            slot,
            greater(tol, whole(0)),
            ctx.open_quotes@.len(),
        ) == Some((best, distance)),
    ensures
        matched_slot(g, ctx, half_gap, done, slot) matches Some(more) ==> {
            let open = ctx.open_quotes@;
            let intent = gridded(g, *ctx.symbol, slot.side, slot.price, slot.size);
            &&& best is None ==> intent is Some && more.used == done.used && more.actions
                == done.actions.push(Action::Quote(intent->0))
            &&& best matches Some(i) ==> more.used == done.used.update(i, true) && {
                ||| more.actions == done.actions && size_is_off(open[i].1.size.0, slot.size)
                    == Some(false)
                ||| intent is Some && size_is_off(open[i].1.size.0, slot.size) == Some(true)
                    && more.actions == done.actions.push(
                    Action::Requote { id: open[i].0, intent: intent->0 },
                )
            }
        },
{
}

} // verus!
