//! Joins the touch: one post-only order on the best bid and one on the best ask.
//!
//! An order is placed wherever the touch has none nearby, counting orders that were
//! just sent and have not shown up yet. One that was seen resting and is gone no longer
//! counts. Orders rest until they are older than the configured age. Targets are capped
//! so that they never cross a one-tick book.

use crate::decimal::{
    adds_exactly, difference, lemma_pow10_positive, lemma_whole, pow10, product, subtracts_exactly,
    sum, whole, Decimal,
};
use crate::market::{maker_order, MarketEvent, Price, QuoteId, QuoteIntent, Side, Timestamp};
use crate::quoting::{capped_product, elapsed, make_post_only_intent, saturating_product};
use crate::sizing::{lot_size, try_lot_size};
use crate::strategy::{keeps_to, lemma_keeps_to_joined, Action, Strategy, StrategyContext};
use vstd::prelude::*;

verus! {

/// How long a placement that has not shown up counts as resting.
pub const IN_FLIGHT_GRACE_NS: u64 = 10_000_000_000;

/// Configuration for [`Joker`].
#[derive(Clone, Copy, Debug)]
pub struct JokerConfig {
    /// Notional per order, in quote currency.
    pub notional_per_order: Decimal,
    /// Venue tick size.
    pub tick_size: Decimal,
    /// Venue lot step size.
    pub step_size: Decimal,
    /// Venue minimum order notional.
    pub min_notional: Decimal,
    /// Age at which an order is cancelled, in seconds. `0` disables.
    pub max_order_age_secs: u64,
    /// Ticks from the best price: negative improves on it, zero joins it, positive
    /// stays behind it.
    pub order_tick_offset: i32,
    /// A resting order within this many ticks of the target covers it.
    pub order_tick_tolerance: u32,
}

/// An order that was sent, and when.
#[derive(Clone, Copy, Debug)]
pub struct Placement {
    /// Side.
    pub side: Side,
    /// Price.
    pub price: Decimal,
    /// When it was sent.
    pub ts: Timestamp,
    /// Whether it has been seen resting.
    pub seen: bool,
}

/// Join-the-touch strategy.
pub struct Joker {
    /// Settings.
    pub config: JokerConfig,
    /// The orders sent, at most one per side and price.
    pub placement_ts: Vec<Placement>,
}

/// Mathematical content of a [`Joker`].
#[verifier::ext_equal]
pub struct JokerState {
    /// Settings.
    pub config: JokerConfig,
    /// The orders sent, at most one per side and price.
    pub placement_ts: Seq<Placement>,
}

impl View for Joker {
    type V = JokerState;

    open spec fn view(&self) -> JokerState {
        JokerState { config: self.config, placement_ts: self.placement_ts@ }
    }
}

/// Whether the placement is on this side at this price.
pub open spec fn is_at(placement: Placement, side: Side, price: Decimal) -> bool {
    placement.side == side && placement.price@ == price@
}

/// The index of the first of `n` placements on this side at this price.
pub open spec fn placement_at(
    placements: Seq<Placement>,
    side: Side,
    price: Decimal,
    n: nat,
) -> Option<int>
    decreases n,
{
    if n == 0 {
        None
    } else {
        match placement_at(placements, side, price, (n - 1) as nat) {
            Some(i) => Some(i),
            None => if is_at(placements[n - 1], side, price) {
                Some(n - 1)
            } else {
                None
            },
        }
    }
}

/// The placements with this one noted at this time.
pub open spec fn noted(
    placements: Seq<Placement>,
    side: Side,
    price: Decimal,
    ts: Timestamp,
) -> Seq<Placement> {
    match placement_at(placements, side, price, placements.len()) {
        Some(i) => placements.update(i, Placement { ts, seen: false, ..placements[i] }),
        None => placements.push(Placement { side, price, ts, seen: false }),
    }
}

/// Whether a quote rests on this side at this price.
pub open spec fn rests_at(
    open: Seq<(QuoteId, QuoteIntent)>,
    side: Side,
    price: Decimal,
) -> bool {
    exists|i: int|
        0 <= i < open.len() && (#[trigger] open[i]).1.side == side && open[i].1.price.0@ == price@
}

/// The placements that rest, or that were never seen and may still show up. Those that rest
/// are marked as seen.
pub open spec fn still_live(
    placements: Seq<Placement>,
    open: Seq<(QuoteId, QuoteIntent)>,
    now: u64,
) -> Seq<Placement>
    decreases placements.len(),
{
    if placements.len() == 0 {
        Seq::empty()
    } else {
        let last = placements.last();
        let front = still_live(placements.drop_last(), open, now);
        if rests_at(open, last.side, last.price) {
            front.push(Placement { seen: true, ..last })
        } else if !last.seen && elapsed(now, last.ts.0) < IN_FLIGHT_GRACE_NS {
            front.push(last)
        } else {
            front
        }
    }
}

/// The placements once the first `n` resting quotes have been checked for age, and the
/// cancels of those that are too old.
pub open spec fn reaped(
    placements: Seq<Placement>,
    open: Seq<(QuoteId, QuoteIntent)>,
    now: u64,
    max_age_ns: int,
    n: nat,
) -> (Seq<Placement>, Seq<Action>)
    decreases n,
{
    if n == 0 {
        (placements, Seq::empty())
    } else {
        let (left, cancels) = reaped(placements, open, now, max_age_ns, (n - 1) as nat);
        let (id, quote) = open[n - 1];
        match placement_at(left, quote.side, quote.price.0, left.len()) {
            None => (left, cancels),
            Some(i) => if elapsed(now, left[i].ts.0) > max_age_ns {
                (left.remove(i), cancels.push(Action::Cancel(id)))
            } else {
                (left, cancels)
            },
        }
    }
}

/// The state once the placements that are gone are forgotten, and the cancels of the age
/// sweep.
pub open spec fn swept(state: JokerState, ctx: StrategyContext) -> (JokerState, Seq<Action>) {
    let open = ctx.open_quotes@;
    let live = still_live(state.placement_ts, open, ctx.now.0);
    if state.config.max_order_age_secs == 0 {
        (JokerState { placement_ts: live, ..state }, Seq::empty())
    } else {
        let (left, cancels) = reaped(
            live,
            open,
            ctx.now.0,
            capped_product(state.config.max_order_age_secs as int, 1_000_000_000),
            open.len(),
        );
        (JokerState { placement_ts: left, ..state }, cancels)
    }
}

/// The distance of the target from the best price.
pub open spec fn tick_offset(config: JokerConfig) -> Option<Decimal> {
    let ticks = if config.order_tick_offset < 0 {
        -config.order_tick_offset
    } else {
        config.order_tick_offset as int
    };
    product(whole(ticks), config.tick_size)
}

/// The price to join on one side: the best price moved by the offset, and kept a tick
/// away from the other side. The inner `None` is no price to join.
pub open spec fn target(config: JokerConfig, ctx: StrategyContext, side: Side) -> Option<
    Option<Decimal>,
> {
    let (own, other) = match side {
        Side::Bid => (ctx.latest_book.bids@, ctx.latest_book.asks@),
        Side::Ask => (ctx.latest_book.asks@, ctx.latest_book.bids@),
    };
    let up = (side is Bid) == (config.order_tick_offset < 0);
    match tick_offset(config) {
        None => None,
        Some(offset) => if own.len() == 0 || own[0].price.0@ <= 0 || config.tick_size@ <= 0 {
            Some(None)
        } else {
            let raw = if up {
                sum(own[0].price.0, offset)
            } else {
                difference(own[0].price.0, offset)
            };
            let limit = match side {
                Side::Bid => difference(other[0].price.0, config.tick_size),
                Side::Ask => sum(other[0].price.0, config.tick_size),
            };
            let guarded = other.len() > 0 && other[0].price.0@ > 0;
            match (raw, limit) {
                (Some(raw), Some(limit)) => {
                    let beyond = match side {
                        Side::Bid => raw@ > limit@,
                        Side::Ask => raw@ < limit@,
                    };
                    let price = if guarded && beyond {
                        limit
                    } else {
                        raw
                    };
                    Some(
                        if price@ > 0 {
                            Some(price)
                        } else {
                            None
                        },
                    )
                },
                (Some(raw), None) => if guarded {
                    None
                } else {
                    Some(
                        if raw@ > 0 {
                            Some(raw)
                        } else {
                            None
                        },
                    )
                },
                _ => None,
            }
        },
    }
}

/// Whether a quote rests on this side between two prices.
pub open spec fn rests_within(
    open: Seq<(QuoteId, QuoteIntent)>,
    side: Side,
    low: Decimal,
    high: Decimal,
) -> bool {
    exists|i: int|
        0 <= i < open.len() && (#[trigger] open[i]).1.side == side && low@ <= open[i].1.price.0@
            <= high@
}

/// Whether a placement between two prices was never seen and may still show up.
pub open spec fn in_flight(
    placements: Seq<Placement>,
    side: Side,
    low: Decimal,
    high: Decimal,
    now: u64,
) -> bool {
    exists|i: int|
        0 <= i < placements.len() && (#[trigger] placements[i]).side == side && low@
            <= placements[i].price@ <= high@ && !placements[i].seen && elapsed(
            now,
            placements[i].ts.0,
        ) < IN_FLIGHT_GRACE_NS
}

/// Whether nothing is quoted where something rests already.
pub open spec fn repeats_none(actions: Seq<Action>, open: Seq<(QuoteId, QuoteIntent)>) -> bool {
    forall|i: int|
        0 <= i < actions.len() ==> match #[trigger] actions[i] {
            Action::Quote(order) => !rests_at(open, order.side, order.price.0),
            _ => true,
        }
}

/// Whether an order near this price rests or is on its way.
pub open spec fn covered(
    state: JokerState,
    ctx: StrategyContext,
    side: Side,
    price: Decimal,
) -> Option<bool> {
    match product(whole(state.config.order_tick_tolerance as int), state.config.tick_size) {
        None => None,
        Some(tol) => match (difference(price, tol), sum(price, tol)) {
            (Some(low), Some(high)) => Some(
                rests_within(ctx.open_quotes@, side, low, high) || in_flight(
                    state.placement_ts,
                    side,
                    low,
                    high,
                    ctx.now.0,
                ),
            ),
            _ => None,
        },
    }
}

/// The state and quote that joining one side calls for.
pub open spec fn joined(state: JokerState, ctx: StrategyContext, side: Side) -> Option<
    (JokerState, Seq<Action>),
> {
    match target(state.config, ctx, side) {
        None => None,
        Some(None) => Some((state, Seq::empty())),
        Some(Some(price)) => match covered(state, ctx, side, price) {
            None => None,
            Some(true) => Some((state, Seq::empty())),
            Some(false) => match lot_size(
                state.config.notional_per_order,
                price,
                state.config.step_size,
                state.config.min_notional,
            ) {
                None => None,
                Some(size) => Some(
                    (
                        JokerState {
                            placement_ts: noted(state.placement_ts, side, price, ctx.now),
                            ..state
                        },
                        seq![Action::Quote(maker_order(*ctx.symbol, side, price, size))],
                    ),
                ),
            },
        },
    }
}

/// The state and actions that an event calls for: the age sweep, then the bid, then
/// the ask.
pub open spec fn joker_step(state: JokerState, ctx: StrategyContext) -> Option<
    (JokerState, Seq<Action>),
> {
    let (fresh, cancels) = swept(state, ctx);
    match joined(fresh, ctx, Side::Bid) {
        None => None,
        Some((after_bid, bids)) => match joined(after_bid, ctx, Side::Ask) {
            None => None,
            Some((after_ask, asks)) => Some((after_ask, cancels + bids + asks)),
        },
    }
}

proof fn lemma_placement_found(
    placements: Seq<Placement>,
    side: Side,
    price: Decimal,
    less: nat,
    more: nat,
)
    requires
        less <= more,
        placement_at(placements, side, price, less) is Some,
    ensures
        placement_at(placements, side, price, more) == placement_at(placements, side, price, less),
    decreases more,
{
    if less < more {
        lemma_placement_found(placements, side, price, less, (more - 1) as nat);
    }
}

proof fn lemma_reaped_are_cancels(
    placements: Seq<Placement>,
    open: Seq<(QuoteId, QuoteIntent)>,
    now: u64,
    max_age_ns: int,
    n: nat,
)
    ensures
        forall|i: int|
            0 <= i < reaped(placements, open, now, max_age_ns, n).1.len() ==> (#[trigger] reaped(
                placements,
                open,
                now,
                max_age_ns,
                n,
            ).1[i]) is Cancel,
    decreases n,
{
    if n > 0 {
        lemma_reaped_are_cancels(placements, open, now, max_age_ns, (n - 1) as nat);
    }
}

proof fn lemma_swept_are_cancels(state: JokerState, ctx: StrategyContext)
    ensures
        forall|i: int|
            0 <= i < swept(state, ctx).1.len() ==> (#[trigger] swept(state, ctx).1[i]) is Cancel,
{
    let open = ctx.open_quotes@;
    lemma_reaped_are_cancels(
        still_live(state.placement_ts, open, ctx.now.0),
        open,
        ctx.now.0,
        capped_product(state.config.max_order_age_secs as int, 1_000_000_000),
        open.len(),
    );
}

fn find_placement(placements: &Vec<Placement>, side: Side, price: Decimal) -> (result: Option<usize>)
    ensures
        match result {
            Some(i) => i < placements@.len() && placement_at(
                placements@,
                side,
                price,
                placements@.len(),
            ) == Some(i as int),
            None => placement_at(placements@, side, price, placements@.len()) is None,
        },
{
    let mut i: usize = 0;
    while i < placements.len()
        invariant
            i <= placements@.len(),
            placement_at(placements@, side, price, i as nat) is None,
        decreases placements@.len() - i,
    {
        if placements[i].side == side && placements[i].price.equals(price) {
            proof {
                lemma_placement_found(placements@, side, price, (i + 1) as nat, placements@.len());
            }
            return Some(i);
        }
        i = i + 1;
    }
    None
}

fn has_quote_within(open: &[(QuoteId, QuoteIntent)], side: Side, low: Decimal, high: Decimal)
    -> (result: bool)
    ensures
        result == rests_within(open@, side, low, high),
{
    let mut i: usize = 0;
    while i < open.len()
        invariant
            i <= open@.len(),
            forall|j: int|
                0 <= j < i ==> !((#[trigger] open@[j]).1.side == side && low@
                    <= open@[j].1.price.0@ <= high@),
        decreases open@.len() - i,
    {
        let quote = &open[i].1;
        if quote.side == side && quote.price.0.is_at_least(low) && quote.price.0.is_at_most(high) {
            assert(open@[i as int].1.side == side);
            return true;
        }
        i = i + 1;
    }
    false
}

fn has_quote_at(open: &[(QuoteId, QuoteIntent)], side: Side, price: Decimal) -> (result: bool)
    ensures
        result == rests_at(open@, side, price),
{
    let mut i: usize = 0;
    while i < open.len()
        invariant
            i <= open@.len(),
            forall|j: int|
                0 <= j < i ==> !((#[trigger] open@[j]).1.side == side && open@[j].1.price.0@
                    == price@),
        decreases open@.len() - i,
    {
        let quote = &open[i].1;
        if quote.side == side && quote.price.0.equals(price) {
            assert(open@[i as int].1.side == side);
            return true;
        }
        i = i + 1;
    }
    false
}

fn has_in_flight(placements: &Vec<Placement>, side: Side, low: Decimal, high: Decimal, now: u64)
    -> (result: bool)
    ensures
        result == in_flight(placements@, side, low, high, now),
{
    let mut i: usize = 0;
    while i < placements.len()
        invariant
            i <= placements@.len(),
            forall|j: int|
                0 <= j < i ==> !((#[trigger] placements@[j]).side == side && low@
                    <= placements@[j].price@ <= high@ && !placements@[j].seen && elapsed(
                    now,
                    placements@[j].ts.0,
                ) < IN_FLIGHT_GRACE_NS),
        decreases placements@.len() - i,
    {
        let p = placements[i];
        if p.side == side && p.price.is_at_least(low) && p.price.is_at_most(high) && !p.seen
            && now.saturating_sub(p.ts.0) < IN_FLIGHT_GRACE_NS {
            assert(placements@[i as int].side == side);
            return true;
        }
        i = i + 1;
    }
    false
}

impl Joker {
    fn keep_live(&mut self, open: &[(QuoteId, QuoteIntent)], now: u64)
        ensures
            final(self)@ == (JokerState {
                placement_ts: still_live(old(self).placement_ts@, open@, now),
                ..old(self)@
            }),
    {
        let ghost all = self.placement_ts@;
        let mut kept: Vec<Placement> = Vec::new();
        let mut i: usize = 0;
        while i < self.placement_ts.len()
            invariant
                i <= all.len(),
                all == self.placement_ts@,
                self.config == old(self).config,
                kept@ =~= still_live(all.take(i as int), open@, now),
            decreases all.len() - i,
        {
            let p = self.placement_ts[i];
            assert(all.take(i + 1).drop_last() =~= all.take(i as int));
            assert(all.take(i + 1).last() == p);
            if has_quote_at(open, p.side, p.price) {
                kept.push(Placement { seen: true, ..p });
            } else if !p.seen && now.saturating_sub(p.ts.0) < IN_FLIGHT_GRACE_NS {
                kept.push(p);
            }
            i = i + 1;
        }
        assert(all.take(i as int) =~= all);
        self.placement_ts = kept;
    }

    fn sweep(&mut self, ctx: &StrategyContext<'_>, actions: &mut Vec<Action>)
        ensures
            final(self)@ == swept(old(self)@, *ctx).0,
            final(actions)@ =~= old(actions)@ + swept(old(self)@, *ctx).1,
    {
        let open = ctx.open_quotes;
        let now: u64 = ctx.now.0;
        self.keep_live(open, now);
        if self.config.max_order_age_secs == 0 {
            return;
        }
        let max_age_ns: u64 = saturating_product(self.config.max_order_age_secs, 1_000_000_000);
        let ghost live = self.placement_ts@;
        let mut n: usize = 0;
        while n < open.len()
            invariant
                n <= open@.len(),
                self.config == old(self).config,
                self.placement_ts@ =~= reaped(live, open@, now, max_age_ns as int, n as nat).0,
                actions@ =~= old(actions)@ + reaped(
                    live,
                    open@,
                    now,
                    max_age_ns as int,
                    n as nat,
                ).1,
            decreases open@.len() - n,
        {
            let quote = &open[n].1;
            if let Some(i) = find_placement(&self.placement_ts, quote.side, quote.price.0) {
                if now.saturating_sub(self.placement_ts[i].ts.0) > max_age_ns {
                    actions.push(Action::Cancel(open[n].0));
                    let _ = self.placement_ts.remove(i);
                }
            }
            n = n + 1;
        }
    }

    /// The price to join on one side, where there is one. Where the tick is not lost in
    /// rounding, a bid stays below the best ask and an ask above the best bid.
    pub fn try_target(config: &JokerConfig, ctx: &StrategyContext<'_>, side: Side) -> (result:
        Option<Option<Decimal>>)
        ensures
            result == target(*config, *ctx, side),
            result matches Some(Some(price)) ==> match side {
                Side::Bid => ctx.latest_book.asks@.len() > 0 && ctx.latest_book.asks@[0].price.0@
                    > 0 && subtracts_exactly(ctx.latest_book.asks@[0].price.0, config.tick_size)
                    ==> price@ < ctx.latest_book.asks@[0].price.0@,
                Side::Ask => ctx.latest_book.bids@.len() > 0 && ctx.latest_book.bids@[0].price.0@
                    > 0 && adds_exactly(ctx.latest_book.bids@[0].price.0, config.tick_size)
                    ==> price@ > ctx.latest_book.bids@[0].price.0@,
            },
            result matches Some(Some(price)) ==> match side {
                Side::Bid => config.order_tick_offset >= 0 ==> price@
                    <= ctx.latest_book.bids@[0].price.0@,
                Side::Ask => config.order_tick_offset >= 0 ==> price@
                    >= ctx.latest_book.asks@[0].price.0@,
            },
    {
        proof {
            let n = config.order_tick_offset as int;
            let p = pow10(28);
            lemma_whole(n);
            lemma_pow10_positive(28);
            assert(n >= 0 ==> n * p >= 0) by (nonlinear_arith)
                requires
                    p >= 1,
            ;
        }
        let tick = config.tick_size;
        let improves = config.order_tick_offset < 0;
        let ticks: i64 = if improves {
            -(config.order_tick_offset as i64)
        } else {
            config.order_tick_offset as i64
        };
        let offset = Decimal::whole(ticks).checked_mul(tick)?;
        let (own, other) = match side {
            Side::Bid => (&ctx.latest_book.bids, &ctx.latest_book.asks),
            Side::Ask => (&ctx.latest_book.asks, &ctx.latest_book.bids),
        };
        if own.len() == 0 || !own[0].price.0.is_positive() || !tick.is_positive() {
            return Some(None);
        }
        let best = own[0].price.0;
        let up = match side {
            Side::Bid => improves,
            Side::Ask => !improves,
        };
        let mut price = if up {
            best.checked_add(offset)?
        } else {
            best.checked_sub(offset)?
        };
        if other.len() > 0 && other[0].price.0.is_positive() {
            match side {
                Side::Bid => {
                    let cap = other[0].price.0.checked_sub(tick)?;
                    if price.is_more(cap) {
                        price = cap;
                    }
                },
                Side::Ask => {
                    let floor = other[0].price.0.checked_add(tick)?;
                    if price.is_less(floor) {
                        price = floor;
                    }
                },
            }
        }
        if price.is_positive() {
            Some(Some(price))
        } else {
            Some(None)
        }
    }

    fn already_at(&self, ctx: &StrategyContext<'_>, side: Side, price: Decimal) -> (result: Option<
        bool,
    >)
        ensures
            result == covered(self@, *ctx, side, price),
            result is Some && price@ >= 0 && self.config.tick_size@ >= 0 && rests_at(
                ctx.open_quotes@,
                side,
                price,
            ) ==> result->0,
    {
        proof {
            lemma_whole(self.config.order_tick_tolerance as int);
            lemma_pow10_positive(28);
            let n = self.config.order_tick_tolerance as int;
            let p = pow10(28);
            assert(n * p >= 0) by (nonlinear_arith)
                requires
                    n >= 0,
                    p >= 1,
            ;
        }
        let tol = Decimal::whole(self.config.order_tick_tolerance as i64).checked_mul(
            self.config.tick_size,
        )?;
        let low = price.checked_sub(tol)?;
        let high = price.checked_add(tol)?;
        Some(
            has_quote_within(ctx.open_quotes, side, low, high) || has_in_flight(
                &self.placement_ts,
                side,
                low,
                high,
                ctx.now.0,
            ),
        )
    }

    fn note(&mut self, side: Side, price: Decimal, ts: Timestamp)
        ensures
            final(self)@ == (JokerState {
                placement_ts: noted(old(self).placement_ts@, side, price, ts),
                ..old(self)@
            }),
    {
        match find_placement(&self.placement_ts, side, price) {
            Some(i) => {
                let known = self.placement_ts[i];
                self.placement_ts.set(i, Placement { ts, seen: false, ..known });
            },
            None => {
                self.placement_ts.push(Placement { side, price, ts, seen: false });
            },
        }
    }

    fn join(&mut self, ctx: &StrategyContext<'_>, side: Side, actions: &mut Vec<Action>) -> (result:
        Option<()>)
        ensures
            match joined(old(self)@, *ctx, side) {
                Some((next, quotes)) => result is Some && final(self)@ == next && final(actions)@
                    =~= old(actions)@ + quotes,
                None => result is None,
            },
            result is Some && repeats_none(old(actions)@, ctx.open_quotes@) ==> repeats_none(
                final(actions)@,
                ctx.open_quotes@,
            ),
    {
        if let Some(price) = Self::try_target(&self.config, ctx, side)? {
            if !self.already_at(ctx, side, price)? {
                let size = try_lot_size(
                    self.config.notional_per_order,
                    Price(price),
                    self.config.step_size,
                    self.config.min_notional,
                )?;
                actions.push(
                    Action::Quote(make_post_only_intent(ctx.symbol, side, Price(price), size)),
                );
                self.note(side, price, ctx.now);
            }
        }
        Some(())
    }
}

impl Strategy for Joker {
    type Config = JokerConfig;

    open spec fn initial(config: JokerConfig) -> Option<JokerState> {
        Some(JokerState { config, placement_ts: Seq::empty() })
    }

    open spec fn event_step(state: JokerState, ctx: StrategyContext, event: MarketEvent) -> Option<
        (JokerState, Seq<Action>),
    > {
        joker_step(state, ctx)
    }

    open spec fn rejection_step(
        state: JokerState,
        ctx: StrategyContext,
        intent: QuoteIntent,
        reason: Seq<char>,
    ) -> Option<(JokerState, Seq<Action>)> {
        Some((state, Seq::empty()))
    }

    fn try_new(config: JokerConfig) -> (result: Option<Joker>) {
        let strategy = Joker { config, placement_ts: Vec::new() };
        assert(strategy@.placement_ts =~= Seq::empty());
        Some(strategy)
    }

    fn name(&self) -> (result: &str)
        ensures
            result@ == "joker"@,
    {
        "joker"
    }

    fn try_on_event(&mut self, ctx: &StrategyContext<'_>, event: &MarketEvent) -> (result: Option<
        Vec<Action>,
    >)
        ensures
            result is Some ==> repeats_none(result->0@, ctx.open_quotes@),
    {
        let mut actions: Vec<Action> = Vec::new();
        let ghost before = self@;
        self.sweep(ctx, &mut actions);
        proof {
            lemma_swept_are_cancels(before, *ctx);
        }
        self.join(ctx, Side::Bid, &mut actions)?;
        self.join(ctx, Side::Ask, &mut actions)?;
        Some(actions)
    }

    /// Nothing is quoted where an order rests already.
    fn on_event(&mut self, ctx: &StrategyContext<'_>, event: &MarketEvent) -> (result: Vec<Action>)
        ensures
            repeats_none(result@, ctx.open_quotes@),
    {
        self.try_on_event(ctx, event).unwrap()
    }

    fn try_on_quote_rejected(
        &mut self,
        ctx: &StrategyContext<'_>,
        intent: &QuoteIntent,
        reason: &str,
    ) -> (result: Option<Vec<Action>>) {
        Some(Vec::new())
    }

    fn on_notional_updated(
        &mut self,
        ctx: &StrategyContext<'_>,
        notional_per_order: Decimal,
    ) -> (result: Vec<Action>)
        ensures
            result@.len() == 0,
            final(self)@ == (JokerState {
                config: if notional_per_order@ > 0 {
                    JokerConfig { notional_per_order, ..old(self).config }
                } else {
                    old(self).config
                },
                ..old(self)@
            }),
    {
        if notional_per_order.is_positive() {
            self.config.notional_per_order = notional_per_order;
        }
        Vec::new()
    }
}

/// Whether no two placements share a side and a price.
pub open spec fn placements_differ(placements: Seq<Placement>) -> bool {
    forall|i: int, j: int|
        0 <= i < j < placements.len() ==> !is_at(
            #[trigger] placements[i],
            (#[trigger] placements[j]).side,
            placements[j].price,
        )
}

proof fn lemma_placement_at(placements: Seq<Placement>, side: Side, price: Decimal, n: nat)
    requires
        n <= placements.len(),
    ensures
        placement_at(placements, side, price, n) matches Some(i) ==> 0 <= i < n && is_at(
            placements[i],
            side,
            price,
        ),
        placement_at(placements, side, price, n) is None ==> forall|i: int|
            0 <= i < n ==> !is_at(#[trigger] placements[i], side, price),
    decreases n,
{
    if n > 0 {
        lemma_placement_at(placements, side, price, (n - 1) as nat);
    }
}

proof fn lemma_noted_differ(placements: Seq<Placement>, side: Side, price: Decimal, ts: Timestamp)
    requires
        placements_differ(placements),
    ensures
        placements_differ(noted(placements, side, price, ts)),
{
    lemma_placement_at(placements, side, price, placements.len());
    let after = noted(placements, side, price, ts);
    assert forall|i: int, j: int| 0 <= i < j < after.len() implies !is_at(
        #[trigger] after[i],
        (#[trigger] after[j]).side,
        after[j].price,
    ) by {
        assert(i < placements.len());
        assert(after[i].side == placements[i].side && after[i].price == placements[i].price);
        if j < placements.len() {
            assert(after[j].side == placements[j].side && after[j].price == placements[j].price);
        }
    }
}

/// Where a placement that is still live comes from.
spec fn stems_from(
    kept: Placement,
    from: Placement,
    open: Seq<(QuoteId, QuoteIntent)>,
) -> bool {
    &&& kept.side == from.side
    &&& kept.price == from.price
    &&& kept.seen == rests_at(open, from.side, from.price)
    &&& kept.seen || !from.seen
}

proof fn lemma_live_stems(
    placements: Seq<Placement>,
    open: Seq<(QuoteId, QuoteIntent)>,
    now: u64,
    k: int,
) -> (m: int)
    requires
        0 <= k < still_live(placements, open, now).len(),
    ensures
        0 <= m < placements.len(),
        stems_from(still_live(placements, open, now)[k], placements[m], open),
    decreases placements.len(),
{
    let front = placements.drop_last();
    if k < still_live(front, open, now).len() {
        lemma_live_stems(front, open, now, k)
    } else {
        placements.len() - 1
    }
}

proof fn lemma_live_differ(placements: Seq<Placement>, open: Seq<(QuoteId, QuoteIntent)>, now: u64)
    requires
        placements_differ(placements),
    ensures
        placements_differ(still_live(placements, open, now)),
    decreases placements.len(),
{
    if placements.len() > 0 {
        let front = placements.drop_last();
        let last = placements.last();
        lemma_live_differ(front, open, now);
        let before = still_live(front, open, now);
        let after = still_live(placements, open, now);
        assert forall|i: int, j: int| 0 <= i < j < after.len() implies !is_at(
            #[trigger] after[i],
            (#[trigger] after[j]).side,
            after[j].price,
        ) by {
            assert(after[i] == before[i]);
            if j < before.len() {
                assert(after[j] == before[j]);
            } else {
                let m = lemma_live_stems(front, open, now, i);
                assert(placements[m] == front[m]);
                assert(placements[placements.len() - 1] == last);
            }
        }
    }
}

/// An order that was seen resting and is gone, filled or cancelled, is forgotten: it does
/// not keep its price from being quoted again.
pub proof fn law_gone_orders_are_forgotten(
    placements: Seq<Placement>,
    open: Seq<(QuoteId, QuoteIntent)>,
    now: u64,
    later_open: Seq<(QuoteId, QuoteIntent)>,
    later: u64,
    side: Side,
    price: Decimal,
)
    requires
        rests_at(open, side, price),
        !rests_at(later_open, side, price),
    ensures
        placement_at(
            still_live(still_live(placements, open, now), later_open, later),
            side,
            price,
            still_live(still_live(placements, open, now), later_open, later).len(),
        ) is None,
{
    let seen = still_live(placements, open, now);
    let left = still_live(seen, later_open, later);
    lemma_placement_at(left, side, price, left.len());
    if let Some(k) = placement_at(left, side, price, left.len()) {
        let m = lemma_live_stems(seen, later_open, later, k);
        let _ = lemma_live_stems(placements, open, now, m);
        if rests_at(later_open, left[k].side, left[k].price) {
            let i = choose|i: int|
                0 <= i < later_open.len() && (#[trigger] later_open[i]).1.side == left[k].side
                    && later_open[i].1.price.0@ == left[k].price@;
            assert(later_open[i].1.side == side && later_open[i].1.price.0@ == price@);
        }
        let i = choose|i: int|
            0 <= i < open.len() && (#[trigger] open[i]).1.side == side && open[i].1.price.0@
                == price@;
        assert(open[i].1.side == seen[m].side && open[i].1.price.0@ == seen[m].price@);
    }
}

proof fn lemma_reaped_differ(
    placements: Seq<Placement>,
    open: Seq<(QuoteId, QuoteIntent)>,
    now: u64,
    max_age_ns: int,
    n: nat,
)
    requires
        placements_differ(placements),
    ensures
        placements_differ(reaped(placements, open, now, max_age_ns, n).0),
    decreases n,
{
    if n > 0 {
        lemma_reaped_differ(placements, open, now, max_age_ns, (n - 1) as nat);
        let left = reaped(placements, open, now, max_age_ns, (n - 1) as nat).0;
        let quote = open[n - 1].1;
        lemma_placement_at(left, quote.side, quote.price.0, left.len());
        if let Some(i) = placement_at(left, quote.side, quote.price.0, left.len()) {
            let after = left.remove(i);
            assert forall|a: int, b: int| 0 <= a < b < after.len() implies !is_at(
                #[trigger] after[a],
                (#[trigger] after[b]).side,
                after[b].price,
            ) by {
                let x = if a < i {
                    a
                } else {
                    a + 1
                };
                let y = if b < i {
                    b
                } else {
                    b + 1
                };
                assert(after[a] == left[x] && after[b] == left[y]);
            }
        }
    }
}

/// There is never more than one placement for a side and a price.
pub proof fn law_placements_stay_apart(state: JokerState, ctx: StrategyContext, event: MarketEvent)
    requires
        placements_differ(state.placement_ts),
    ensures
        Joker::event_step(state, ctx, event) matches Some((next, _)) ==> placements_differ(
            next.placement_ts,
        ),
{
    let open = ctx.open_quotes@;
    lemma_live_differ(state.placement_ts, open, ctx.now.0);
    let max_age = capped_product(state.config.max_order_age_secs as int, 1_000_000_000);
    lemma_reaped_differ(
        still_live(state.placement_ts, open, ctx.now.0),
        open,
        ctx.now.0,
        max_age,
        open.len(),
    );
    let fresh = swept(state, ctx).0;
    if let Some(Some(price)) = target(fresh.config, ctx, Side::Bid) {
        lemma_noted_differ(fresh.placement_ts, Side::Bid, price, ctx.now);
    }
    if let Some((after_bid, _)) = joined(fresh, ctx, Side::Bid) {
        if let Some(Some(price)) = target(after_bid.config, ctx, Side::Ask) {
            lemma_noted_differ(after_bid.placement_ts, Side::Ask, price, ctx.now);
        }
    }
}

/// An order that was just sent is not sent again while it is on its way, at whatever
/// price the tolerance makes it cover.
pub proof fn law_in_flight_orders_are_not_repeated(
    state: JokerState,
    sent: StrategyContext,
    ctx: StrategyContext,
    side: Side,
    price: Decimal,
    tol: Decimal,
    low: Decimal,
    high: Decimal,
)
    requires
        target(state.config, sent, side) == Some(Some(price)),
        joined(state, sent, side) is Some,
        (joined(state, sent, side)->0).1.len() > 0,
        target(state.config, ctx, side) == Some(Some(price)),
        product(whole(state.config.order_tick_tolerance as int), state.config.tick_size) == Some(
            tol,
        ),
        difference(price, tol) == Some(low),
        sum(price, tol) == Some(high),
        low@ <= price@ <= high@,
        elapsed(ctx.now.0, sent.now.0) < IN_FLIGHT_GRACE_NS,
    ensures
        joined((joined(state, sent, side)->0).0, ctx, side) == Some(
            ((joined(state, sent, side)->0).0, Seq::<Action>::empty()),
        ),
{
    let after = (joined(state, sent, side)->0).0;
    lemma_placement_at(state.placement_ts, side, price, state.placement_ts.len());
    let at = match placement_at(state.placement_ts, side, price, state.placement_ts.len()) {
        Some(i) => i,
        None => state.placement_ts.len() as int,
    };
    assert(after.placement_ts == noted(state.placement_ts, side, price, sent.now));
    assert(after.placement_ts[at].side == side && after.placement_ts[at].price@ == price@
        && after.placement_ts[at].ts == sent.now && !after.placement_ts[at].seen);
}

/// No event and no rejection calls for an order in another instrument.
pub proof fn law_quotes_its_instrument(
    state: JokerState,
    ctx: StrategyContext,
    event: MarketEvent,
    intent: QuoteIntent,
    reason: Seq<char>,
)
    ensures
        Joker::event_step(state, ctx, event) matches Some((_, actions)) ==> keeps_to(
            actions,
            *ctx.symbol,
        ),
        Joker::rejection_step(state, ctx, intent, reason) matches Some((_, actions)) ==> keeps_to(
            actions,
            *ctx.symbol,
        ),
{
    lemma_swept_are_cancels(state, ctx);
    let (fresh, cancels) = swept(state, ctx);
    if let Some((after_bid, bids)) = joined(fresh, ctx, Side::Bid) {
        lemma_keeps_to_joined(cancels, bids, *ctx.symbol);
        if let Some((_, asks)) = joined(after_bid, ctx, Side::Ask) {
            lemma_keeps_to_joined(cancels + bids, asks, *ctx.symbol);
        }
    }
}

/// A side is joined at its best price moved by the offset: behind it where the offset is not
/// negative, in front of it where it is, and never nearer than a tick to the other side.
pub proof fn law_target_is_off_the_touch(
    config: JokerConfig,
    ctx: StrategyContext,
    behind: Decimal,
    front: Decimal,
    below_ask: Decimal,
    above_bid: Decimal,
    ask_behind: Decimal,
    ask_front: Decimal,
    offset: Decimal,
)
    requires
        ctx.latest_book.bids@.len() > 0,
        ctx.latest_book.asks@.len() > 0,
        0 < ctx.latest_book.bids@[0].price.0@,
        0 < ctx.latest_book.asks@[0].price.0@,
        config.tick_size@ > 0,
        product(
            whole(
                if config.order_tick_offset < 0 {
                    -config.order_tick_offset
                } else {
                    config.order_tick_offset as int
                },
            ),
            config.tick_size,
        ) == Some(offset),
        difference(ctx.latest_book.bids@[0].price.0, offset) == Some(behind),
        sum(ctx.latest_book.bids@[0].price.0, offset) == Some(front),
        sum(ctx.latest_book.asks@[0].price.0, offset) == Some(ask_behind),
        difference(ctx.latest_book.asks@[0].price.0, offset) == Some(ask_front),
        difference(ctx.latest_book.asks@[0].price.0, config.tick_size) == Some(below_ask),
        sum(ctx.latest_book.bids@[0].price.0, config.tick_size) == Some(above_bid),
    ensures
        ({
            let bid = target(config, ctx, Side::Bid);
            let ask = target(config, ctx, Side::Ask);
            let bid_raw = if config.order_tick_offset < 0 {
                front
            } else {
                behind
            };
            let ask_raw = if config.order_tick_offset < 0 {
                ask_front
            } else {
                ask_behind
            };
            &&& bid is Some && ask is Some
            &&& bid->0 matches Some(price) ==> price@ > 0 && price@ <= below_ask@ && price@
                <= bid_raw@ && (price == bid_raw || price == below_ask)
            &&& ask->0 matches Some(price) ==> price@ > 0 && price@ >= above_bid@ && price@
                >= ask_raw@ && (price == ask_raw || price == above_bid)
            &&& 0 < bid_raw@ <= below_ask@ ==> bid->0 is Some
            &&& 0 < ask_raw@ && above_bid@ <= ask_raw@ ==> ask->0 is Some
        }),
{
}

/// An order is placed only where nothing rests or is on its way within the tolerance of its
/// price, on its own side.
pub proof fn law_covered_prices_are_not_joined(
    state: JokerState,
    ctx: StrategyContext,
    side: Side,
    price: Decimal,
    tol: Decimal,
    low: Decimal,
    high: Decimal,
)
    requires
        target(state.config, ctx, side) == Some(Some(price)),
        product(whole(state.config.order_tick_tolerance as int), state.config.tick_size) == Some(
            tol,
        ),
        difference(price, tol) == Some(low),
        sum(price, tol) == Some(high),
    ensures
        joined(state, ctx, side) matches Some((next, actions)) ==> {
            &&& actions.len() > 0 ==> forall|i: int|
                0 <= i < ctx.open_quotes@.len() && (#[trigger] ctx.open_quotes@[i]).1.side == side
                    ==> !(low@ <= ctx.open_quotes@[i].1.price.0@ <= high@)
            &&& actions.len() > 0 ==> actions.len() == 1 && actions[0] is Quote
                && actions[0]->Quote_0.side == side && actions[0]->Quote_0.price.0 == price
            &&& actions.len() == 0 ==> next == state
        },
{
}

/// A quote is cancelled for its age only where it was placed longer ago than orders may rest.
pub proof fn law_only_old_orders_are_reaped(
    placements: Seq<Placement>,
    open: Seq<(QuoteId, QuoteIntent)>,
    now: u64,
    max_age_ns: int,
    n: nat,
    c: int,
)
    requires
        n <= open.len(),
        max_age_ns >= 0,
        0 <= c < reaped(placements, open, now, max_age_ns, n).1.len(),
    ensures
        exists|k: int, i: int|
            0 <= k < n && 0 <= i < placements.len() && (#[trigger] open[k]).1.side == (
            #[trigger] placements[i]).side && open[k].1.price.0@ == placements[i].price@
                && now - placements[i].ts.0 > max_age_ns && reaped(
                placements,
                open,
                now,
                max_age_ns,
                n,
            ).1[c] == Action::Cancel(open[k].0),
    decreases n,
{
    if n > 0 {
        let (left, cancels) = reaped(placements, open, now, max_age_ns, (n - 1) as nat);
        if c < cancels.len() {
            law_only_old_orders_are_reaped(placements, open, now, max_age_ns, (n - 1) as nat, c);
        } else {
            let quote = open[n - 1].1;
            let at = placement_at(left, quote.side, quote.price.0, left.len())->0;
            lemma_placement_is_at(left, quote.side, quote.price.0, left.len());
            lemma_reaped_stay(placements, open, now, max_age_ns, (n - 1) as nat, at);
            let i = choose|i: int| 0 <= i < placements.len() && placements[i] == left[at];
            assert(open[n - 1].1.side == placements[i].side);
        }
    }
}

proof fn lemma_placement_is_at(
    placements: Seq<Placement>,
    side: Side,
    price: Decimal,
    n: nat,
)
    requires
        n <= placements.len(),
    ensures
        placement_at(placements, side, price, n) matches Some(i) ==> 0 <= i < n && is_at(
            placements[i],
            side,
            price,
        ),
    decreases n,
{
    if n > 0 {
        lemma_placement_is_at(placements, side, price, (n - 1) as nat);
    }
}

proof fn lemma_reaped_stay(
    placements: Seq<Placement>,
    open: Seq<(QuoteId, QuoteIntent)>,
    now: u64,
    max_age_ns: int,
    n: nat,
    j: int,
)
    requires
        0 <= j < reaped(placements, open, now, max_age_ns, n).0.len(),
    ensures
        exists|i: int|
            0 <= i < placements.len() && placements[i] == reaped(
                placements,
                open,
                now,
                max_age_ns,
                n,
            ).0[j],
    decreases n,
{
    if n == 0 {
        assert(placements[j] == reaped(placements, open, now, max_age_ns, n).0[j]);
    } else {
        let (left, cancels) = reaped(placements, open, now, max_age_ns, (n - 1) as nat);
        let quote = open[n - 1].1;
        match placement_at(left, quote.side, quote.price.0, left.len()) {
            Some(at) if elapsed(now, left[at].ts.0) > max_age_ns => {
                lemma_placement_is_at(left, quote.side, quote.price.0, left.len());
                lemma_reaped_stay(
                    placements,
                    open,
                    now,
                    max_age_ns,
                    (n - 1) as nat,
                    if j < at {
                        j
                    } else {
                        j + 1
                    },
                );
            },
            _ => {
                lemma_reaped_stay(placements, open, now, max_age_ns, (n - 1) as nat, j);
            },
        }
    }
}

/// An order that joins a side is in the size that its notional buys at its price, and is noted
/// as placed now.
pub proof fn law_joined_orders_are_sized_and_noted(
    state: JokerState,
    ctx: StrategyContext,
    side: Side,
)
    ensures
        joined(state, ctx, side) matches Some((next, actions)) ==> actions.len() > 0 ==> {
            let order = actions[0]->Quote_0;
            &&& order.tif is PostOnly
            &&& lot_size(
                state.config.notional_per_order,
                order.price.0,
                state.config.step_size,
                state.config.min_notional,
            ) == Some(order.size.0)
            &&& next.placement_ts == noted(state.placement_ts, side, order.price.0, ctx.now)
        },
{
}

} // verus!
