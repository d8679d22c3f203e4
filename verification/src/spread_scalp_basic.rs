//! The plainest spread scalping: both sides, one tick inside the touches, whenever
//! the spread and the edge left inside it are wide enough. A position doubles the
//! size of the side it leans to.

use crate::decimal::{difference, exact_difference, exact_sum, over, times, whole, Decimal};
use crate::market::{
    maker_order, MarketEvent, Price, QuoteIntent, Side, Size, Snapshot, Symbol, Timestamp,
};
use crate::quoting::{
    lemma_reaches_bps, make_post_only_intent, measures_exactly, midpoint, reaches_bps, try_bps_of,
};
use crate::scalping::{
    bumped_size, do_targets_stand, has_interval_passed, inside_targets, interval_passed,
    targets_stand, try_bumped_size, try_inside_targets,
};
use crate::strategy::{follows, keeps_to, Action, Strategy, StrategyContext};
use vstd::prelude::*;

verus! {

/// Configuration for [`SpreadScalp`].
#[derive(Clone, Copy, Debug)]
pub struct SpreadScalpConfig {
    /// Fiat notional per order.
    pub notional_per_order: Decimal,
    /// Venue tick size (price increment).
    pub tick_size: Decimal,
    /// Venue lot step size (quantity rounding).
    pub step_size: Decimal,
    /// Minimum order notional (price x size) required by the venue.
    pub min_notional: Decimal,
    /// Minimum market spread in bps required to quote.
    pub min_spread_bps: Decimal,
    /// Fixed requote interval in ms.
    pub requote_interval_ms: u64,
}

/// Spread scalping strategy.
pub struct SpreadScalp {
    /// Settings.
    pub config: SpreadScalpConfig,
    /// Bid target of the last requote.
    pub last_bid: Option<Price>,
    /// Ask target of the last requote.
    pub last_ask: Option<Price>,
    /// Time of the last requote or withdrawal.
    pub last_requote_ts: Option<Timestamp>,
    /// Whether any quote is believed live.
    pub quotes_live: bool,
}

impl View for SpreadScalp {
    type V = Self;

    open spec fn view(&self) -> Self {
        *self
    }
}

/// The targets on a book; the inner `None` is a book on which the spread, or the
/// edge left between the targets, is too tight.
pub open spec fn targets(state: SpreadScalp, snapshot: Snapshot) -> Option<Option<(Price, Price)>> {
    match inside_targets(state.config.tick_size, state.config.min_spread_bps, snapshot) {
        None => None,
        Some(None) => Some(None),
        Some(Some((bid, ask, mid))) => match times(
            over(difference(ask.0, bid.0), Some(mid)),
            Some(whole(10_000)),
        ) {
            None => None,
            Some(edge_bps) => Some(
                if edge_bps@ < state.config.min_spread_bps@ {
                    None
                } else {
                    Some((bid, ask))
                },
            ),
        },
    }
}

/// A quote of the configured notional.
pub open spec fn quote(
    config: SpreadScalpConfig,
    symbol: Symbol,
    side: Side,
    price: Price,
    multiplier: Decimal,
) -> Option<Action> {
    match bumped_size(
        config.notional_per_order,
        price,
        multiplier,
        config.step_size,
        config.min_notional,
    ) {
        None => None,
        Some(size) => Some(Action::Quote(maker_order(symbol, side, price.0, size))),
    }
}

/// Size multipliers of bid and ask: twice the size on the bid for a long, on the ask
/// for a short.
pub open spec fn leaning_multipliers(position_size: Decimal) -> (Decimal, Decimal) {
    if position_size@ > 0 {
        (whole(2), whole(1))
    } else if position_size@ < 0 {
        (whole(1), whole(2))
    } else {
        (whole(1), whole(1))
    }
}

/// A requote: everything is cancelled and both sides are quoted.
pub open spec fn requoted(
    state: SpreadScalp,
    ctx: StrategyContext,
    bid: Price,
    ask: Price,
    ts: Timestamp,
) -> Option<(SpreadScalp, Seq<Action>)> {
    let (bid_mult, ask_mult) = leaning_multipliers(ctx.position.size.0);
    match (
        quote(state.config, *ctx.symbol, Side::Bid, bid, bid_mult),
        quote(state.config, *ctx.symbol, Side::Ask, ask, ask_mult),
    ) {
        (Some(bid_quote), Some(ask_quote)) => Some(
            (
                SpreadScalp {
                    last_bid: Some(bid),
                    last_ask: Some(ask),
                    last_requote_ts: Some(ts),
                    quotes_live: true,
                    ..state
                },
                seq![Action::CancelAll, bid_quote, ask_quote],
            ),
        ),
        _ => None,
    }
}

/// Forgetting the targets, and cancelling everything that is live.
pub open spec fn withdrawn(state: SpreadScalp, ts: Timestamp) -> (SpreadScalp, Seq<Action>) {
    (
        SpreadScalp {
            last_bid: None,
            last_ask: None,
            last_requote_ts: Some(ts),
            quotes_live: false,
            ..state
        },
        if state.quotes_live {
            seq![Action::CancelAll]
        } else {
            Seq::empty()
        },
    )
}

/// Quoting on a book; `forced` skips the requote gate.
pub open spec fn book_step(
    state: SpreadScalp,
    ctx: StrategyContext,
    snapshot: Snapshot,
    ts: Timestamp,
    forced: bool,
) -> Option<(SpreadScalp, Seq<Action>)> {
    match targets(state, snapshot) {
        None => None,
        Some(None) => Some(withdrawn(state, ts)),
        Some(Some((bid, ask))) => if !forced && (targets_stand(
            state.last_bid,
            state.last_ask,
            bid,
            ask,
        ) || !interval_passed(state.last_requote_ts, ts, state.config.requote_interval_ms)) {
            Some((state, seq![Action::NoOp]))
        } else {
            requoted(state, ctx, bid, ask, ts)
        },
    }
}

impl SpreadScalp {
    fn compute_targets(&self, snapshot: &Snapshot) -> (result: Option<Option<(Price, Price)>>)
        ensures
            result == targets(*self, *snapshot),
            result matches Some(Some((bid, ask))) ==> {
                let (best_bid, best_ask) = (snapshot.bids@[0].price.0, snapshot.asks@[0].price.0);
                let mid = midpoint(best_bid, best_ask)->0;
                &&& best_bid@ < best_ask@ && bid.0@ < ask.0@
                &&& exact_sum(best_bid, self.config.tick_size) ==> bid.0@ == best_bid@
                    + self.config.tick_size@
                &&& exact_difference(best_ask, self.config.tick_size) ==> ask.0@ == best_ask@
                    - self.config.tick_size@
                &&& exact_difference(ask.0, bid.0) && measures_exactly(
                    difference(ask.0, bid.0)->0,
                    mid,
                ) ==> reaches_bps(ask.0@ - bid.0@, mid@, self.config.min_spread_bps@, true)
            },
    {
        match try_inside_targets(self.config.tick_size, self.config.min_spread_bps, snapshot)? {
            None => Some(None),
            Some((bid, ask, mid)) => {
                let edge = ask.0.checked_sub(bid.0)?;
                let edge_bps = try_bps_of(edge, mid)?;
                proof {
                    if measures_exactly(edge, mid) {
                        lemma_reaches_bps(
                            edge@,
                            mid@,
                            edge_bps@,
                            self.config.min_spread_bps@,
                        );
                    }
                }
                if edge_bps.is_less(self.config.min_spread_bps) {
                    Some(None)
                } else {
                    Some(Some((bid, ask)))
                }
            },
        }
    }

    fn make_quote(
        &self,
        ctx: &StrategyContext<'_>,
        side: Side,
        price: Price,
        size_multiplier: Decimal,
    ) -> (result: Option<Action>)
        ensures
            result == quote(self.config, *ctx.symbol, side, price, size_multiplier),
    {
        let c = self.config;
        let size = try_bumped_size(
            c.notional_per_order,
            price,
            size_multiplier,
            c.step_size,
            c.min_notional,
        )?;
        Some(Action::Quote(make_post_only_intent(ctx.symbol, side, price, Size(size))))
    }

    fn inventory_size_multiplier(&self, ctx: &StrategyContext<'_>) -> (result: (Decimal, Decimal))
        ensures
            result == leaning_multipliers(ctx.position.size.0),
    {
        let size = ctx.position.size.0;
        if size.is_positive() {
            (Decimal::whole(2), Decimal::one())
        } else if size.is_negative() {
            (Decimal::one(), Decimal::whole(2))
        } else {
            (Decimal::one(), Decimal::one())
        }
    }

    fn emit_requote(
        &mut self,
        ctx: &StrategyContext<'_>,
        bid: Price,
        ask: Price,
        ts: Timestamp,
    ) -> (result: Option<Vec<Action>>)
        ensures
            follows(requoted(*old(self), *ctx, bid, ask, ts), result, *final(self)),
    {
        let (bid_mult, ask_mult) = self.inventory_size_multiplier(ctx);
        self.last_bid = Some(bid);
        self.last_ask = Some(ask);
        self.last_requote_ts = Some(ts);
        self.quotes_live = true;
        let bid_quote = self.make_quote(ctx, Side::Bid, bid, bid_mult)?;
        let ask_quote = self.make_quote(ctx, Side::Ask, ask, ask_mult)?;
        Some(vec![Action::CancelAll, bid_quote, ask_quote])
    }

    fn cancel_if_live(&mut self, ts: Timestamp) -> (result: Vec<Action>)
        ensures
            (*final(self), result@) == withdrawn(*old(self), ts),
    {
        self.last_bid = None;
        self.last_ask = None;
        self.last_requote_ts = Some(ts);
        if self.quotes_live {
            self.quotes_live = false;
            vec![Action::CancelAll]
        } else {
            Vec::new()
        }
    }

    fn quote_book(
        &mut self,
        ctx: &StrategyContext<'_>,
        snapshot: &Snapshot,
        ts: Timestamp,
        forced: bool,
    ) -> (result: Option<Vec<Action>>)
        ensures
            follows(book_step(*old(self), *ctx, *snapshot, ts, forced), result, *final(self)),
    {
        let (bid, ask) = match self.compute_targets(snapshot)? {
            Some(pair) => pair,
            None => {
                return Some(self.cancel_if_live(ts));
            },
        };
        if !forced && (do_targets_stand(self.last_bid, self.last_ask, bid, ask)
            || !has_interval_passed(self.last_requote_ts, ts, self.config.requote_interval_ms)) {
            return Some(vec![Action::NoOp]);
        }
        self.emit_requote(ctx, bid, ask, ts)
    }
}

impl Strategy for SpreadScalp {
    type Config = SpreadScalpConfig;

    open spec fn initial(config: SpreadScalpConfig) -> Option<SpreadScalp> {
        Some(
            SpreadScalp {
                config,
                last_bid: None,
                last_ask: None,
                last_requote_ts: None,
                quotes_live: false,
            },
        )
    }

    open spec fn event_step(state: SpreadScalp, ctx: StrategyContext, event: MarketEvent) -> Option<
        (SpreadScalp, Seq<Action>),
    > {
        match event {
            MarketEvent::BookUpdate { snapshot } => book_step(
                state,
                ctx,
                snapshot,
                snapshot.ts,
                false,
            ),
            MarketEvent::Heartbeat { ts } => book_step(state, ctx, *ctx.latest_book, ts, false),
            MarketEvent::Trade { .. } => Some((state, Seq::empty())),
            MarketEvent::Fill(_) => book_step(state, ctx, *ctx.latest_book, ctx.now, true),
        }
    }

    open spec fn rejection_step(
        state: SpreadScalp,
        ctx: StrategyContext,
        intent: QuoteIntent,
        reason: Seq<char>,
    ) -> Option<(SpreadScalp, Seq<Action>)> {
        book_step(
            SpreadScalp { last_bid: None, last_ask: None, last_requote_ts: None, ..state },
            ctx,
            *ctx.latest_book,
            ctx.now,
            true,
        )
    }

    fn try_new(config: SpreadScalpConfig) -> (result: Option<SpreadScalp>) {
        Some(
            SpreadScalp {
                config,
                last_bid: None,
                last_ask: None,
                last_requote_ts: None,
                quotes_live: false,
            },
        )
    }

    fn name(&self) -> (result: &str)
        ensures
            result@ == "spread-scalp"@,
    {
        "spread-scalp"
    }

    fn try_on_event(&mut self, ctx: &StrategyContext<'_>, event: &MarketEvent) -> (result: Option<
        Vec<Action>,
    >) {
        match event {
            MarketEvent::BookUpdate { snapshot } => self.quote_book(
                ctx,
                snapshot,
                snapshot.ts,
                false,
            ),
            MarketEvent::Heartbeat { ts } => self.quote_book(ctx, ctx.latest_book, *ts, false),
            MarketEvent::Trade { .. } => Some(Vec::new()),
            MarketEvent::Fill(_) => self.quote_book(ctx, ctx.latest_book, ctx.now, true),
        }
    }

    fn try_on_quote_rejected(
        &mut self,
        ctx: &StrategyContext<'_>,
        intent: &QuoteIntent,
        reason: &str,
    ) -> (result: Option<Vec<Action>>) {
        self.last_bid = None;
        self.last_ask = None;
        self.last_requote_ts = None;
        self.quote_book(ctx, ctx.latest_book, ctx.now, true)
    }

    fn on_notional_updated(
        &mut self,
        ctx: &StrategyContext<'_>,
        notional_per_order: Decimal,
    ) -> (result: Vec<Action>)
        ensures
            result@ == Seq::<Action>::empty(),
            *final(self) == (if notional_per_order@ > 0 {
                SpreadScalp {
                    config: SpreadScalpConfig { notional_per_order, ..old(self).config },
                    ..*old(self)
                }
            } else {
                *old(self)
            }),
    {
        if notional_per_order.is_positive() {
            self.config.notional_per_order = notional_per_order;
        }
        Vec::new()
    }
}

/// While the targets stand still nothing is requoted.
pub proof fn law_standing_targets_are_kept(
    state: SpreadScalp,
    ctx: StrategyContext,
    snapshot: Snapshot,
    ts: Timestamp,
)
    requires
        targets(state, snapshot) matches Some(Some((bid, ask))) && targets_stand(
            state.last_bid,
            state.last_ask,
            bid,
            ask,
        ),
    ensures
        book_step(state, ctx, snapshot, ts, false) == Some((state, seq![Action::NoOp])),
{
}

/// No event and no rejection calls for an order in another instrument.
pub proof fn law_quotes_its_instrument(
    state: SpreadScalp,
    ctx: StrategyContext,
    event: MarketEvent,
    intent: QuoteIntent,
    reason: Seq<char>,
)
    ensures
        SpreadScalp::event_step(state, ctx, event) matches Some((_, actions)) ==> keeps_to(
            actions,
            *ctx.symbol,
        ),
        SpreadScalp::rejection_step(state, ctx, intent, reason) matches Some((_, actions))
            ==> keeps_to(actions, *ctx.symbol),
{
}

/// The bid is quoted at twice the size while long, the ask while short, and both at the plain
/// size while flat.
pub proof fn law_size_leans_with_the_position(position_size: Decimal)
    ensures
        leaning_multipliers(position_size).0 == if position_size@ > 0 {
            whole(2)
        } else {
            whole(1)
        },
        leaning_multipliers(position_size).1 == if position_size@ < 0 {
            whole(2)
        } else {
            whole(1)
        },
{
}

/// A requote cancels everything, then bids at the lower target and offers at the higher.
pub proof fn law_requote_quotes_both_targets(
    state: SpreadScalp,
    ctx: StrategyContext,
    bid: Price,
    ask: Price,
    ts: Timestamp,
)
    ensures
        requoted(state, ctx, bid, ask, ts) matches Some((next, actions)) ==> {
            let (bid_order, ask_order) = (actions[1]->Quote_0, actions[2]->Quote_0);
            &&& actions.len() == 3 && actions[0] is CancelAll
            &&& actions[1] is Quote && actions[2] is Quote
            &&& bid_order.side is Bid && bid_order.price == bid
            &&& ask_order.side is Ask && ask_order.price == ask
            &&& next.last_bid == Some(bid) && next.last_ask == Some(ask)
            &&& next.last_requote_ts == Some(ts) && next.quotes_live
        },
{
}

/// Without a fill, quotes are moved only where a target moved, and no sooner than the interval
/// allows.
pub proof fn law_requotes_are_spaced(
    state: SpreadScalp,
    ctx: StrategyContext,
    snapshot: Snapshot,
    ts: Timestamp,
    bid: Price,
    ask: Price,
)
    requires
        targets(state, snapshot) == Some(Some((bid, ask))),
    ensures
        state.last_requote_ts is Some && 0 <= ts.0 - (state.last_requote_ts->0).0
            < state.config.requote_interval_ms * 1_000_000 <= u64::MAX ==> book_step(
            state,
            ctx,
            snapshot,
            ts,
            false,
        ) == Some((state, seq![Action::NoOp])),
        state.last_bid is None && (state.last_requote_ts is None || ts.0 - (
        state.last_requote_ts->0).0 >= state.config.requote_interval_ms * 1_000_000) ==> book_step(
            state,
            ctx,
            snapshot,
            ts,
            false,
        ) == requoted(state, ctx, bid, ask, ts),
        book_step(state, ctx, snapshot, ts, true) == requoted(state, ctx, bid, ask, ts),
{
}

/// Without targets nothing stays live.
pub proof fn law_withdrawing_settles(state: SpreadScalp, ts: Timestamp)
    ensures
        !withdrawn(state, ts).0.quotes_live,
        withdrawn(state, ts).1.len() > 0 <==> state.quotes_live,
        withdrawn(state, ts).0.last_bid is None && withdrawn(state, ts).0.last_ask is None,
{
}

/// Each side of a requote is in the size of its own multiplier.
pub proof fn law_requote_sizes_lean(
    state: SpreadScalp,
    ctx: StrategyContext,
    bid: Price,
    ask: Price,
    ts: Timestamp,
)
    ensures
        requoted(state, ctx, bid, ask, ts) matches Some((next, actions)) ==> {
            let c = state.config;
            let size = ctx.position.size.0@;
            &&& bumped_size(
                c.notional_per_order,
                bid,
                if size > 0 {
                    whole(2)
                } else {
                    whole(1)
                },
                c.step_size,
                c.min_notional,
            ) == Some(actions[1]->Quote_0.size.0)
            &&& bumped_size(
                c.notional_per_order,
                ask,
                if size < 0 {
                    whole(2)
                } else {
                    whole(1)
                },
                c.step_size,
                c.min_notional,
            ) == Some(actions[2]->Quote_0.size.0)
        },
{
}

} // verus!
