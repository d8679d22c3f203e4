//! Spread scalping that cancels and replaces both sides at every requote.
//!
//! While the market spread exceeds a threshold, passive limit orders rest one tick
//! inside the best bid and ask. Quotes are refreshed on a fixed interval unless
//! their targets stand still. Inventory doubles the size of the reducing side.

use crate::decimal::{absolute, whole, Decimal};
use crate::market::{
    maker_order, opposite, taker_order, Fill, MarketEvent, Price, QuoteIntent, Side, Size, Snapshot,
    Symbol, Timestamp,
};
use crate::quoting::{make_post_only_intent, midpoint, try_midpoint};
use crate::risk::{build_close, flatten};
use crate::scalping::{
    at_cap, cooling_off, do_targets_stand, has_interval_passed, inside_targets, interval_passed,
    inventory_multipliers, is_at_cap, is_cooling_off, is_profit_reached, is_within_cap,
    missing_size, multipliers, on_side, profit_reached, targets_stand, try_inside_targets,
    try_missing_size, within_cap,
};
use crate::spread_scalp::book_state::{
    raised_size, sized, try_quote_size, try_size_at_least_min_notional,
};
use crate::strategy::{
    follows, keeps_to, lemma_keeps_to_joined, quotes_on, Action, Strategy, StrategyContext,
};
use vstd::prelude::*;

verus! {

/// Configuration for [`SpreadScalpOld`].
#[derive(Clone, Copy, Debug)]
pub struct SpreadScalpOldConfig {
    /// Fiat notional per order.
    pub notional_per_order: Decimal,
    /// Venue tick size (price increment).
    pub tick_size: Decimal,
    /// Venue lot step size (quantity rounding).
    pub step_size: Decimal,
    /// Minimum order notional (price x size) required by the venue.
    pub min_notional: Decimal,
    /// Minimum market spread in bps required to quote.
    pub min_spread_bps: Decimal,
    /// Fixed requote interval in ms.
    pub requote_interval_ms: u64,
    /// Max position in quote currency before one-sided quoting kicks in. 0
    /// disables.
    pub max_position_usdt: Decimal,
    /// Unrealized profit in quote currency that closes the position as a taker at the
    /// opposing touch. 0 disables.
    pub take_profit_usdt: Decimal,
    /// Cooldown per side after a venue rejection, in ms. 0 disables.
    pub reject_cooldown_ms: u64,
}

/// Spread scalping strategy.
pub struct SpreadScalpOld {
    /// Settings.
    pub config: SpreadScalpOldConfig,
    /// Bid target of the last requote.
    pub last_bid: Option<Price>,
    /// Ask target of the last requote.
    pub last_ask: Option<Price>,
    /// Time of the last requote.
    pub last_requote_ts: Option<Timestamp>,
    /// Whether any quote is believed live.
    pub quotes_live: bool,
    /// Time of the last rejected bid.
    pub last_reject_bid_ts: Option<Timestamp>,
    /// Time of the last rejected ask.
    pub last_reject_ask_ts: Option<Timestamp>,
}

impl View for SpreadScalpOld {
    type V = Self;

    open spec fn view(&self) -> Self {
        *self
    }
}

/// The targets on a book; see [`inside_targets`].
pub open spec fn targets(state: SpreadScalpOld, snapshot: Snapshot) -> Option<
    Option<(Price, Price)>,
> {
    match inside_targets(state.config.tick_size, state.config.min_spread_bps, snapshot) {
        None => None,
        Some(None) => Some(None),
        Some(Some((bid, ask, _))) => Some(Some((bid, ask))),
    }
}

/// A quote of the configured notional, on the lot grid and at least the minimum
/// notional.
pub open spec fn quote(
    config: SpreadScalpOldConfig,
    symbol: Symbol,
    side: Side,
    price: Price,
    size_multiplier: Decimal,
) -> Option<Action> {
    match sized(config.notional_per_order, price, size_multiplier, config.step_size) {
        None => None,
        Some(raw) => match raised_size(raw, price, config.min_notional, config.step_size) {
            None => None,
            Some(size) => Some(Action::Quote(maker_order(symbol, side, price.0, size))),
        },
    }
}

/// Whether a side may not be quoted yet after a rejection.
pub open spec fn in_cooldown(state: SpreadScalpOld, side: Side, now: Timestamp) -> bool {
    cooling_off(
        on_side(side, state.last_reject_bid_ts, state.last_reject_ask_ts),
        now,
        state.config.reject_cooldown_ms,
    )
}

/// Whether a side may be quoted.
pub open spec fn wanted(
    state: SpreadScalpOld,
    position_size: Decimal,
    capped: bool,
    side: Side,
    ts: Timestamp,
) -> bool {
    within_cap(position_size, capped, side) && !in_cooldown(state, side, ts)
}

/// The quote on a side where it is wanted.
pub open spec fn wanted_quote(
    state: SpreadScalpOld,
    ctx: StrategyContext,
    side: Side,
    price: Price,
    want: bool,
) -> Option<Seq<Action>> {
    let (bid_mult, ask_mult) = multipliers(ctx.position.size.0);
    if !want {
        Some(Seq::empty())
    } else {
        match quote(state.config, *ctx.symbol, side, price, on_side(side, bid_mult, ask_mult)) {
            None => None,
            Some(action) => Some(seq![action]),
        }
    }
}

/// The state once new targets are taken.
pub open spec fn retargeted(state: SpreadScalpOld, bid: Price, ask: Price, ts: Timestamp) -> SpreadScalpOld {
    SpreadScalpOld {
        last_bid: Some(bid),
        last_ask: Some(ask),
        last_requote_ts: Some(ts),
        quotes_live: true,
        ..state
    }
}

/// A requote: everything is cancelled; a position with enough profit is closed at the
/// opposing touch of the book, otherwise both wanted sides are quoted.
pub open spec fn requoted(
    state: SpreadScalpOld,
    ctx: StrategyContext,
    book: Snapshot,
    bid: Price,
    ask: Price,
    ts: Timestamp,
) -> Option<(SpreadScalpOld, Seq<Action>)> {
    let size = ctx.position.size.0;
    let next = retargeted(state, bid, ask, ts);
    match midpoint(bid.0, ask.0) {
        None => None,
        Some(mid) => match (
            at_cap(state.config.max_position_usdt, size, mid),
            profit_reached(state.config.take_profit_usdt, size, ctx.position.avg_entry.0, mid),
        ) {
            (Some(capped), Some(reached)) => if reached {
                let side = if size@ > 0 {
                    Side::Ask
                } else {
                    Side::Bid
                };
                let (best_bid, best_ask) = (book.bids@[0].price, book.asks@[0].price);
                Some((next, flatten(*ctx.symbol, side, absolute(size), best_bid, best_ask)))
            } else {
                match (
                    wanted_quote(
                        next,
                        ctx,
                        Side::Bid,
                        bid,
                        wanted(next, size, capped, Side::Bid, ts),
                    ),
                    wanted_quote(
                        next,
                        ctx,
                        Side::Ask,
                        ask,
                        wanted(next, size, capped, Side::Ask, ts),
                    ),
                ) {
                    (Some(bids), Some(asks)) => Some((next, seq![Action::CancelAll] + bids + asks)),
                    _ => None,
                }
            },
            _ => None,
        },
    }
}

/// Forgetting the targets, and cancelling everything that is live.
pub open spec fn withdrawn(state: SpreadScalpOld) -> (SpreadScalpOld, Seq<Action>) {
    (
        SpreadScalpOld {
            last_bid: None,
            last_ask: None,
            last_requote_ts: None,
            quotes_live: false,
            ..state
        },
        if state.quotes_live {
            seq![Action::CancelAll]
        } else {
            Seq::empty()
        },
    )
}

/// The order that fills a side up to its full size, where that is allowed.
pub open spec fn top_up(
    state: SpreadScalpOld,
    ctx: StrategyContext,
    side: Side,
    price: Price,
    allowed: bool,
) -> Option<Seq<Action>> {
    let (bid_mult, ask_mult) = multipliers(ctx.position.size.0);
    let c = state.config;
    if !allowed {
        Some(Seq::empty())
    } else {
        match missing_size(
            ctx.open_quotes@,
            side,
            c.notional_per_order,
            price,
            on_side(side, bid_mult, ask_mult),
            c.step_size,
        ) {
            None => None,
            Some(None) => Some(Seq::empty()),
            Some(Some(extra)) => Some(
                seq![Action::Quote(maker_order(*ctx.symbol, side, price.0, extra))],
            ),
        }
    }
}

/// A fill: the filled side is replaced and the other topped up.
pub open spec fn fill_step(state: SpreadScalpOld, ctx: StrategyContext, fill: Fill) -> Option<
    (SpreadScalpOld, Seq<Action>),
> {
    let size = ctx.position.size.0;
    let ts = ctx.now;
    let forgiven = match fill.side {
        Side::Bid => SpreadScalpOld { last_reject_bid_ts: None, ..state },
        Side::Ask => SpreadScalpOld { last_reject_ask_ts: None, ..state },
    };
    match targets(forgiven, *ctx.latest_book) {
        None => None,
        Some(None) => Some(withdrawn(forgiven)),
        Some(Some((bid, ask))) => {
            let next = retargeted(forgiven, bid, ask, ts);
            let other = opposite(fill.side);
            match midpoint(bid.0, ask.0) {
                None => None,
                Some(mid) => match at_cap(state.config.max_position_usdt, size, mid) {
                    None => None,
                    Some(capped) => match (
                        wanted_quote(
                            next,
                            ctx,
                            fill.side,
                            on_side(fill.side, bid, ask),
                            wanted(next, size, capped, fill.side, ts),
                        ),
                        top_up(
                            next,
                            ctx,
                            other,
                            on_side(other, bid, ask),
                            wanted(next, size, capped, other, ts),
                        ),
                    ) {
                        (Some(first), Some(second)) => Some((next, first + second)),
                        _ => None,
                    },
                },
            }
        },
    }
}

/// A book update or heartbeat.
pub open spec fn book_step(
    state: SpreadScalpOld,
    ctx: StrategyContext,
    snapshot: Snapshot,
    ts: Timestamp,
) -> Option<(SpreadScalpOld, Seq<Action>)> {
    match targets(state, snapshot) {
        None => None,
        Some(None) => Some(withdrawn(state)),
        Some(Some((bid, ask))) => if targets_stand(state.last_bid, state.last_ask, bid, ask)
            || !interval_passed(state.last_requote_ts, ts, state.config.requote_interval_ms) {
            Some((state, seq![Action::NoOp]))
        } else {
            requoted(state, ctx, snapshot, bid, ask, ts)
        },
    }
}

impl SpreadScalpOld {
    fn compute_targets(&self, snapshot: &Snapshot) -> (result: Option<Option<(Price, Price)>>)
        ensures
            result == targets(*self, *snapshot),
    {
        match try_inside_targets(self.config.tick_size, self.config.min_spread_bps, snapshot)? {
            None => Some(None),
            Some((bid, ask, _)) => Some(Some((bid, ask))),
        }
    }

    fn make_quote(
        &self,
        ctx: &StrategyContext<'_>,
        side: Side,
        price: Price,
        size_multiplier: Decimal,
    ) -> (result: Option<Action>)
        ensures
            result == quote(self.config, *ctx.symbol, side, price, size_multiplier),
    {
        let c = self.config;
        let raw = try_quote_size(c.notional_per_order, price, size_multiplier, c.step_size)?;
        let size = try_size_at_least_min_notional(raw, price, c.min_notional, c.step_size)?;
        Some(Action::Quote(make_post_only_intent(ctx.symbol, side, price, Size(size))))
    }

    fn side_in_cooldown(&self, side: Side, now: Timestamp) -> (result: bool)
        ensures
            result == in_cooldown(*self, side, now),
    {
        let last = match side {
            Side::Bid => self.last_reject_bid_ts,
            Side::Ask => self.last_reject_ask_ts,
        };
        is_cooling_off(last, now, self.config.reject_cooldown_ms)
    }

    fn wants(&self, position_size: Decimal, capped: bool, side: Side, ts: Timestamp) -> (result:
        bool)
        ensures
            result == wanted(*self, position_size, capped, side, ts),
    {
        is_within_cap(position_size, capped, side) && !self.side_in_cooldown(side, ts)
    }

    fn push_wanted(
        &self,
        actions: &mut Vec<Action>,
        ctx: &StrategyContext<'_>,
        side: Side,
        price: Price,
        want: bool,
    ) -> (result: Option<()>)
        ensures
            match wanted_quote(*self, *ctx, side, price, want) {
                Some(more) => result is Some && final(actions)@ =~= old(actions)@ + more,
                None => result is None,
            },
    {
        if want {
            let (bid_mult, ask_mult) = inventory_multipliers(ctx.position.size.0);
            let mult = match side {
                Side::Bid => bid_mult,
                Side::Ask => ask_mult,
            };
            let action = self.make_quote(ctx, side, price, mult)?;
            actions.push(action);
        }
        Some(())
    }

    fn retarget(&mut self, bid: Price, ask: Price, ts: Timestamp)
        ensures
            *final(self) == retargeted(*old(self), bid, ask, ts),
    {
        self.last_bid = Some(bid);
        self.last_ask = Some(ask);
        self.last_requote_ts = Some(ts);
        self.quotes_live = true;
    }

    fn emit_requote(
        &mut self,
        ctx: &StrategyContext<'_>,
        book: &Snapshot,
        bid: Price,
        ask: Price,
        ts: Timestamp,
    ) -> (result: Option<Vec<Action>>)
        requires
            book.bids@.len() > 0,
            book.asks@.len() > 0,
        ensures
            follows(requoted(*old(self), *ctx, *book, bid, ask, ts), result, *final(self)),
    {
        self.retarget(bid, ask, ts);
        let size = ctx.position.size.0;
        let mid = try_midpoint(bid.0, ask.0)?;
        let capped = is_at_cap(self.config.max_position_usdt, size, mid)?;
        let mut actions = vec![Action::CancelAll];
        if is_profit_reached(
            self.config.take_profit_usdt,
            size,
            ctx.position.avg_entry.0,
            mid,
        )? {
            let side = if size.is_positive() {
                Side::Ask
            } else {
                Side::Bid
            };
            let (best_bid, best_ask) = (book.bids[0].price, book.asks[0].price);
            actions.push(build_close(ctx.symbol, side, Size(size.abs()), best_bid, best_ask));
            return Some(actions);
        }
        let want_bid = self.wants(size, capped, Side::Bid, ts);
        let want_ask = self.wants(size, capped, Side::Ask, ts);
        self.push_wanted(&mut actions, ctx, Side::Bid, bid, want_bid)?;
        self.push_wanted(&mut actions, ctx, Side::Ask, ask, want_ask)?;
        Some(actions)
    }

    fn cancel_if_live(&mut self) -> (result: Vec<Action>)
        ensures
            (*final(self), result@) == withdrawn(*old(self)),
    {
        self.last_bid = None;
        self.last_ask = None;
        self.last_requote_ts = None;
        if self.quotes_live {
            self.quotes_live = false;
            vec![Action::CancelAll]
        } else {
            Vec::new()
        }
    }

    fn handle_fill(&mut self, ctx: &StrategyContext<'_>, fill: &Fill) -> (result: Option<
        Vec<Action>,
    >)
        ensures
            follows(fill_step(*old(self), *ctx, *fill), result, *final(self)),
    {
        let ts = ctx.now;
        match fill.side {
            Side::Bid => {
                self.last_reject_bid_ts = None;
            },
            Side::Ask => {
                self.last_reject_ask_ts = None;
            },
        }
        let (bid, ask) = match self.compute_targets(ctx.latest_book)? {
            Some(pair) => pair,
            None => {
                return Some(self.cancel_if_live());
            },
        };
        self.retarget(bid, ask, ts);
        let size = ctx.position.size.0;
        let mid = try_midpoint(bid.0, ask.0)?;
        let capped = is_at_cap(self.config.max_position_usdt, size, mid)?;
        let other = fill.side.opposite();
        let (filled_price, other_price) = match fill.side {
            Side::Bid => (bid, ask),
            Side::Ask => (ask, bid),
        };
        let mut actions: Vec<Action> = Vec::new();
        let want_filled = self.wants(size, capped, fill.side, ts);
        self.push_wanted(&mut actions, ctx, fill.side, filled_price, want_filled)?;
        if self.wants(size, capped, other, ts) {
            let (bid_mult, ask_mult) = inventory_multipliers(size);
            let mult = match other {
                Side::Bid => bid_mult,
                Side::Ask => ask_mult,
            };
            let missing = try_missing_size(
                ctx.open_quotes,
                other,
                self.config.notional_per_order,
                other_price,
                mult,
                self.config.step_size,
            )?;
            if let Some(extra) = missing {
                actions.push(
                    Action::Quote(
                        make_post_only_intent(ctx.symbol, other, other_price, Size(extra)),
                    ),
                );
            }
        }
        Some(actions)
    }

    fn handle_book(&mut self, ctx: &StrategyContext<'_>, snapshot: &Snapshot, ts: Timestamp)
        -> (result: Option<Vec<Action>>)
        ensures
            follows(book_step(*old(self), *ctx, *snapshot, ts), result, *final(self)),
    {
        let (bid, ask) = match self.compute_targets(snapshot)? {
            Some(pair) => pair,
            None => {
                return Some(self.cancel_if_live());
            },
        };
        if do_targets_stand(self.last_bid, self.last_ask, bid, ask) || !has_interval_passed(
            self.last_requote_ts,
            ts,
            self.config.requote_interval_ms,
        ) {
            return Some(vec![Action::NoOp]);
        }
        self.emit_requote(ctx, snapshot, bid, ask, ts)
    }
}

impl Strategy for SpreadScalpOld {
    type Config = SpreadScalpOldConfig;

    open spec fn initial(config: SpreadScalpOldConfig) -> Option<SpreadScalpOld> {
        Some(
            SpreadScalpOld {
                config,
                last_bid: None,
                last_ask: None,
                last_requote_ts: None,
                quotes_live: false,
                last_reject_bid_ts: None,
                last_reject_ask_ts: None,
            },
        )
    }

    open spec fn event_step(state: SpreadScalpOld, ctx: StrategyContext, event: MarketEvent)
        -> Option<(SpreadScalpOld, Seq<Action>)> {
        match event {
            MarketEvent::BookUpdate { snapshot } => book_step(state, ctx, snapshot, snapshot.ts),
            MarketEvent::Heartbeat { ts } => book_step(state, ctx, *ctx.latest_book, ts),
            MarketEvent::Trade { .. } => Some((state, Seq::empty())),
            MarketEvent::Fill(fill) => fill_step(state, ctx, fill),
        }
    }

    open spec fn rejection_step(
        state: SpreadScalpOld,
        ctx: StrategyContext,
        intent: QuoteIntent,
        reason: Seq<char>,
    ) -> Option<(SpreadScalpOld, Seq<Action>)> {
        let marked = match intent.side {
            Side::Bid => SpreadScalpOld { last_reject_bid_ts: Some(ctx.now), ..state },
            Side::Ask => SpreadScalpOld { last_reject_ask_ts: Some(ctx.now), ..state },
        };
        let cleared = SpreadScalpOld {
            last_bid: None,
            last_ask: None,
            last_requote_ts: None,
            ..marked
        };
        match targets(cleared, *ctx.latest_book) {
            None => None,
            Some(None) => Some(withdrawn(cleared)),
            Some(Some((bid, ask))) => requoted(
                cleared,
                ctx,
                *ctx.latest_book,
                bid,
                ask,
                ctx.now,
            ),
        }
    }

    fn try_new(config: SpreadScalpOldConfig) -> (result: Option<SpreadScalpOld>) {
        Some(
            SpreadScalpOld {
                config,
                last_bid: None,
                last_ask: None,
                last_requote_ts: None,
                quotes_live: false,
                last_reject_bid_ts: None,
                last_reject_ask_ts: None,
            },
        )
    }

    fn name(&self) -> (result: &str)
        ensures
            result@ == "spread-scalp-old"@,
    {
        "spread-scalp-old"
    }

    fn try_on_event(&mut self, ctx: &StrategyContext<'_>, event: &MarketEvent) -> (result: Option<
        Vec<Action>,
    >) {
        match event {
            MarketEvent::BookUpdate { snapshot } => self.handle_book(ctx, snapshot, snapshot.ts),
            MarketEvent::Heartbeat { ts } => self.handle_book(ctx, ctx.latest_book, *ts),
            MarketEvent::Trade { .. } => Some(Vec::new()),
            MarketEvent::Fill(fill) => self.handle_fill(ctx, fill),
        }
    }

    fn try_on_quote_rejected(
        &mut self,
        ctx: &StrategyContext<'_>,
        intent: &QuoteIntent,
        reason: &str,
    ) -> (result: Option<Vec<Action>>) {
        match intent.side {
            Side::Bid => {
                self.last_reject_bid_ts = Some(ctx.now);
            },
            Side::Ask => {
                self.last_reject_ask_ts = Some(ctx.now);
            },
        }
        self.last_bid = None;
        self.last_ask = None;
        self.last_requote_ts = None;
        match self.compute_targets(ctx.latest_book)? {
            None => Some(self.cancel_if_live()),
            Some((bid, ask)) => self.emit_requote(ctx, ctx.latest_book, bid, ask, ctx.now),
        }
    }

    fn on_notional_updated(
        &mut self,
        ctx: &StrategyContext<'_>,
        notional_per_order: Decimal,
    ) -> (result: Vec<Action>)
        ensures
            result@ == Seq::<Action>::empty(),
            *final(self) == (if notional_per_order@ > 0 {
                SpreadScalpOld {
                    config: SpreadScalpOldConfig { notional_per_order, ..old(self).config },
                    ..*old(self)
                }
            } else {
                *old(self)
            }),
    {
        if notional_per_order.is_positive() {
            self.config.notional_per_order = notional_per_order;
        }
        Vec::new()
    }
}

/// A requote that does not take profit never quotes a side in cooldown after a
/// rejection, nor one that would grow a position at its cap.
pub proof fn law_requote_respects_cap_and_cooldown(
    state: SpreadScalpOld,
    ctx: StrategyContext,
    book: Snapshot,
    bid: Price,
    ask: Price,
    ts: Timestamp,
    side: Side,
)
    requires
        requoted(state, ctx, book, bid, ask, ts) is Some,
        profit_reached(
            state.config.take_profit_usdt,
            ctx.position.size.0,
            ctx.position.avg_entry.0,
            midpoint(bid.0, ask.0)->0,
        ) == Some(false),
        ({
            let size = ctx.position.size.0;
            let capped = at_cap(
                state.config.max_position_usdt,
                size,
                midpoint(bid.0, ask.0)->0,
            )->0;
            ||| in_cooldown(state, side, ts)
            ||| capped && side == Side::Bid && size@ > 0
            ||| capped && side == Side::Ask && size@ < 0
        }),
    ensures
        !quotes_on((requoted(state, ctx, book, bid, ask, ts)->0).1, side),
{
}

/// The two targets never cross each other.
pub proof fn law_targets_do_not_cross(state: SpreadScalpOld, snapshot: Snapshot)
    ensures
        targets(state, snapshot) matches Some(Some((bid, ask))) ==> bid.0@ < ask.0@,
{
}

proof fn lemma_requoted_keeps_to(
    state: SpreadScalpOld,
    ctx: StrategyContext,
    book: Snapshot,
    bid: Price,
    ask: Price,
    ts: Timestamp,
)
    ensures
        requoted(state, ctx, book, bid, ask, ts) matches Some((_, actions)) ==> keeps_to(
            actions,
            *ctx.symbol,
        ),
{
    let size = ctx.position.size.0;
    let next = retargeted(state, bid, ask, ts);
    let all = seq![Action::CancelAll];
    if let Some(mid) = midpoint(bid.0, ask.0) {
        if let Some(capped) = at_cap(state.config.max_position_usdt, size, mid) {
            let want_bid = wanted(next, size, capped, Side::Bid, ts);
            let want_ask = wanted(next, size, capped, Side::Ask, ts);
            match (
                wanted_quote(next, ctx, Side::Bid, bid, want_bid),
                wanted_quote(next, ctx, Side::Ask, ask, want_ask),
            ) {
                (Some(bids), Some(asks)) => {
                    lemma_keeps_to_joined(all, bids, *ctx.symbol);
                    lemma_keeps_to_joined(all + bids, asks, *ctx.symbol);
                },
                _ => {},
            }
        }
    }
}

proof fn lemma_book_keeps_to(
    state: SpreadScalpOld,
    ctx: StrategyContext,
    snapshot: Snapshot,
    ts: Timestamp,
)
    ensures
        book_step(state, ctx, snapshot, ts) matches Some((_, actions)) ==> keeps_to(
            actions,
            *ctx.symbol,
        ),
{
    if let Some(Some((bid, ask))) = targets(state, snapshot) {
        lemma_requoted_keeps_to(state, ctx, snapshot, bid, ask, ts);
    }
}

proof fn lemma_fill_keeps_to(state: SpreadScalpOld, ctx: StrategyContext, fill: Fill)
    ensures
        fill_step(state, ctx, fill) matches Some((_, actions)) ==> keeps_to(actions, *ctx.symbol),
{
    let size = ctx.position.size.0;
    let other = opposite(fill.side);
    if let Some((next, _)) = fill_step(state, ctx, fill) {
        if let Some(Some((bid, ask))) = targets(next, *ctx.latest_book) {
            let capped = at_cap(state.config.max_position_usdt, size, midpoint(bid.0, ask.0)->0)->0;
            let first = wanted_quote(
                next,
                ctx,
                fill.side,
                on_side(fill.side, bid, ask),
                wanted(next, size, capped, fill.side, ctx.now),
            );
            let second = top_up(
                next,
                ctx,
                other,
                on_side(other, bid, ask),
                wanted(next, size, capped, other, ctx.now),
            );
            lemma_keeps_to_joined(first->0, second->0, *ctx.symbol);
        }
    }
}

/// No event and no rejection calls for an order in another instrument.
pub proof fn law_quotes_its_instrument(
    state: SpreadScalpOld,
    ctx: StrategyContext,
    event: MarketEvent,
    intent: QuoteIntent,
    reason: Seq<char>,
)
    ensures
        SpreadScalpOld::event_step(state, ctx, event) matches Some((_, actions)) ==> keeps_to(
            actions,
            *ctx.symbol,
        ),
        SpreadScalpOld::rejection_step(state, ctx, intent, reason) matches Some((_, actions))
            ==> keeps_to(actions, *ctx.symbol),
{
    match event {
        MarketEvent::BookUpdate { snapshot } => {
            lemma_book_keeps_to(state, ctx, snapshot, snapshot.ts);
        },
        MarketEvent::Heartbeat { ts } => {
            lemma_book_keeps_to(state, ctx, *ctx.latest_book, ts);
        },
        MarketEvent::Fill(fill) => {
            lemma_fill_keeps_to(state, ctx, fill);
        },
        MarketEvent::Trade { .. } => {},
    }
    let marked = match intent.side {
        Side::Bid => SpreadScalpOld { last_reject_bid_ts: Some(ctx.now), ..state },
        Side::Ask => SpreadScalpOld { last_reject_ask_ts: Some(ctx.now), ..state },
    };
    let cleared = SpreadScalpOld {
        last_bid: None,
        last_ask: None,
        last_requote_ts: None,
        ..marked
    };
    if let Some(Some((bid, ask))) = targets(cleared, *ctx.latest_book) {
        lemma_requoted_keeps_to(cleared, ctx, *ctx.latest_book, bid, ask, ctx.now);
    }
}

/// A position that has made its profit is closed as a whole by an immediate order at the
/// opposing touch; without that nothing is taken.
pub proof fn law_profit_is_taken_whole(
    state: SpreadScalpOld,
    ctx: StrategyContext,
    book: Snapshot,
    bid: Price,
    ask: Price,
    ts: Timestamp,
    mid: Decimal,
    reached: bool,
)
    requires
        midpoint(bid.0, ask.0) == Some(mid),
        profit_reached(
            state.config.take_profit_usdt,
            ctx.position.size.0,
            ctx.position.avg_entry.0,
            mid,
        ) == Some(reached),
    ensures
        requoted(state, ctx, book, bid, ask, ts) matches Some((next, actions)) ==> {
            let size = ctx.position.size.0;
            &&& actions.len() > 0 && actions[0] is CancelAll
            &&& reached && size@ > 0 ==> actions =~= seq![
                Action::CancelAll,
                Action::Quote(
                    taker_order(*ctx.symbol, Side::Ask, book.bids@[0].price.0, absolute(size)),
                ),
            ]
            &&& reached && size@ < 0 ==> actions =~= seq![
                Action::CancelAll,
                Action::Quote(
                    taker_order(*ctx.symbol, Side::Bid, book.asks@[0].price.0, absolute(size)),
                ),
            ]
            &&& !reached ==> forall|i: int|
                0 <= i < actions.len() ==> (#[trigger] actions[i] matches Action::Quote(order)
                    ==> order.tif is PostOnly && (order.side is Bid ==> order.price == bid) && (
                order.side is Ask ==> order.price == ask))
        },
{
}

/// A fill ends the cooldown of its own side and leaves that of the other.
pub proof fn law_fill_ends_the_cooldown(state: SpreadScalpOld, ctx: StrategyContext, fill: Fill)
    ensures
        fill_step(state, ctx, fill) matches Some((next, _)) ==> {
            &&& fill.side is Bid ==> next.last_reject_bid_ts is None && next.last_reject_ask_ts
                == state.last_reject_ask_ts
            &&& fill.side is Ask ==> next.last_reject_ask_ts is None && next.last_reject_bid_ts
                == state.last_reject_bid_ts
        },
{
}

/// After a fill every order stands at the target of its side.
pub proof fn law_fill_requotes_at_the_targets(
    state: SpreadScalpOld,
    ctx: StrategyContext,
    fill: Fill,
)
    ensures
        fill_step(state, ctx, fill) matches Some((next, actions)) ==> forall|i: int|
            0 <= i < actions.len() ==> (#[trigger] actions[i] matches Action::Quote(order) ==> {
                &&& order.side is Bid ==> Some(order.price) == next.last_bid
                &&& order.side is Ask ==> Some(order.price) == next.last_ask
            }),
{
}

/// A rejection starts the cooldown of its own side and leaves that of the other.
pub proof fn law_rejection_starts_the_cooldown(
    state: SpreadScalpOld,
    ctx: StrategyContext,
    intent: QuoteIntent,
    reason: Seq<char>,
)
    ensures
        SpreadScalpOld::rejection_step(state, ctx, intent, reason) matches Some((next, _)) ==> {
            &&& intent.side is Bid ==> next.last_reject_bid_ts == Some(ctx.now)
                && next.last_reject_ask_ts == state.last_reject_ask_ts
            &&& intent.side is Ask ==> next.last_reject_ask_ts == Some(ctx.now)
                && next.last_reject_bid_ts == state.last_reject_bid_ts
        },
{
}

/// A top-up adds what is missing on a side at its target, where the side is allowed.
pub proof fn law_top_up_adds_what_is_missing(
    state: SpreadScalpOld,
    ctx: StrategyContext,
    side: Side,
    price: Price,
    allowed: bool,
)
    ensures
        top_up(state, ctx, side, price, allowed) matches Some(actions) ==> {
            let mult = if side is Bid {
                multipliers(ctx.position.size.0).0
            } else {
                multipliers(ctx.position.size.0).1
            };
            &&& !allowed ==> actions.len() == 0
            &&& actions.len() > 0 ==> actions.len() == 1 && actions[0] is Quote && {
                let order = actions[0]->Quote_0;
                &&& order.side == side && order.price == price && order.size.0@ > 0
                &&& missing_size(
                    ctx.open_quotes@,
                    side,
                    state.config.notional_per_order,
                    price,
                    mult,
                    state.config.step_size,
                ) == Some(Some(order.size.0))
            }
        },
{
}

/// A quote is in the size of its own side: twice as large where it reduces the position.
pub proof fn law_quotes_are_sized_by_their_side(
    state: SpreadScalpOld,
    ctx: StrategyContext,
    side: Side,
    price: Price,
    want: bool,
    raw: Decimal,
)
    requires
        sized(
            state.config.notional_per_order,
            price,
            if side is Ask && ctx.position.size.0@ > 0 || side is Bid && ctx.position.size.0@ < 0 {
                whole(2)
            } else {
                whole(1)
            },
            state.config.step_size,
        ) == Some(raw),
    ensures
        !want ==> wanted_quote(state, ctx, side, price, want) == Some(Seq::<Action>::empty()),
        want ==> (wanted_quote(state, ctx, side, price, want) matches Some(actions) ==> {
            let order = actions[0]->Quote_0;
            &&& actions.len() == 1 && actions[0] is Quote
            &&& order.side == side && order.price == price && order.tif is PostOnly
            &&& raised_size(
                raw,
                price,
                state.config.min_notional,
                state.config.step_size,
            ) == Some(order.size.0)
        }),
{
}

} // verus!
