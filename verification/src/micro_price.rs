//! Quotes around the size-weighted mid.
//!
//! ```text
//! micro-price  m = (bid size x ask price + ask size x bid price) / (bid size + ask size)
//! bid            = floor((m - half_spread_ticks x tick) / tick) x tick
//! ask            = ceil((m + half_spread_ticks x tick) / tick) x tick
//! ```
//!
//! A bid-heavy book pulls the micro-price toward the ask, so both quotes lean up. An
//! optional skew shifts both against the position. The quotes are kept a tick away from
//! the other side of the book.

use crate::decimal::{
    absolute, adds_exactly, ceil_int, ceil_of, difference, exact_difference, exact_product,
    exact_quotient, exact_sum, floor_int, floor_of, lemma_pow10_positive, lemma_whole, lesser,
    negated, over, pow10, product, quotient, subtracts_exactly, sum, whole, Decimal,
};
use crate::market::{MarketEvent, Position, Price, QuoteIntent, Side, Size, Snapshot, Timestamp};
use crate::quoting::{
    post_only_pair, quoted_pair, requote_on_tick_drift, should_requote_on_tick_drift,
    try_weighted_mid, weighted_mid,
};
use crate::strategy::{follows, keeps_to, quotes_on, Action, Strategy, StrategyContext};
use vstd::prelude::*;

verus! {

/// Configuration for [`MicroPrice`].
#[derive(Clone, Copy, Debug)]
pub struct MicroPriceConfig {
    /// Size of each quote.
    pub size_per_quote: Size,
    /// Venue tick size.
    pub tick_size: Decimal,
    /// Distance of each quote from the micro-price, in ticks.
    pub half_spread_ticks: u32,
    /// Time after which the quotes are placed anew, in ms.
    pub min_requote_interval_ms: u64,
    /// Largest shift against the position, in ticks. `0` means none.
    pub max_skew_ticks: u32,
    /// Position at which the shift is full.
    pub skew_unit: Size,
}

/// Micro-price strategy.
#[derive(Clone, Copy, Debug)]
pub struct MicroPrice {
    /// Settings.
    pub config: MicroPriceConfig,
    /// Bid last quoted.
    pub last_bid: Option<Price>,
    /// Ask last quoted.
    pub last_ask: Option<Price>,
    /// When the quotes were last placed.
    pub last_requote_ts: Option<Timestamp>,
}

impl View for MicroPrice {
    type V = MicroPrice;

    open spec fn view(&self) -> MicroPrice {
        *self
    }
}

/// How far both quotes are shifted: in proportion to the position up to the largest
/// shift, down for a long and up for a short.
pub open spec fn inventory_shift(config: MicroPriceConfig, pos: Decimal) -> Option<Decimal> {
    if config.max_skew_ticks == 0 || config.skew_unit.0@ <= 0 {
        Some(whole(0))
    } else {
        match quotient(absolute(pos), config.skew_unit.0) {
            None => None,
            Some(full) => match product(
                lesser(full, whole(1)),
                whole(config.max_skew_ticks as int),
            ) {
                None => None,
                Some(ticks) => product(
                    if pos@ > 0 {
                        negated(ticks)
                    } else {
                        ticks
                    },
                    config.tick_size,
                ),
            },
        }
    }
}

/// The quotes on the tick grid around a micro-price.
pub open spec fn snapped(config: MicroPriceConfig, micro: Decimal) -> Option<(Decimal, Decimal)> {
    let tick = config.tick_size;
    let half = product(whole(config.half_spread_ticks as int), tick);
    let below = match half {
        Some(half) => difference(micro, half),
        None => None,
    };
    let above = match half {
        Some(half) => sum(micro, half),
        None => None,
    };
    match (over(below, Some(tick)), over(above, Some(tick))) {
        (Some(below), Some(above)) => match (
            product(floor_of(below), tick),
            product(ceil_of(above), tick),
        ) {
            (Some(bid), Some(ask)) => Some((bid, ask)),
            _ => None,
        },
        _ => None,
    }
}

/// A bid and an ask shifted by the same amount.
pub open spec fn shifted(quotes: (Decimal, Decimal), shift: Decimal) -> Option<
    (Decimal, Decimal),
> {
    if shift@ == 0 {
        Some(quotes)
    } else {
        match (sum(quotes.0, shift), sum(quotes.1, shift)) {
            (Some(bid), Some(ask)) => Some((bid, ask)),
            _ => None,
        }
    }
}

/// A bid kept a tick below the best ask.
pub open spec fn clamped_bid(tick: Decimal, bid: Decimal, best_ask: Decimal) -> Option<Decimal> {
    if bid@ >= best_ask@ {
        difference(best_ask, tick)
    } else {
        Some(bid)
    }
}

/// An ask kept a tick above the best bid.
pub open spec fn clamped_ask(tick: Decimal, ask: Decimal, best_bid: Decimal) -> Option<Decimal> {
    if ask@ <= best_bid@ {
        sum(best_bid, tick)
    } else {
        Some(ask)
    }
}

/// A bid and an ask kept a tick away from the other side of the book and of each other.
pub open spec fn clamped(
    tick: Decimal,
    quotes: (Decimal, Decimal),
    best_bid: Decimal,
    best_ask: Decimal,
) -> Option<(Decimal, Decimal)> {
    match (
        clamped_bid(tick, quotes.0, best_ask),
        clamped_ask(tick, quotes.1, best_bid),
    ) {
        (Some(bid), Some(ask)) => if bid@ >= ask@ {
            match difference(ask, tick) {
                None => None,
                Some(bid) => Some((bid, ask)),
            }
        } else {
            Some((bid, ask))
        },
        _ => None,
    }
}

/// The target quotes for a book and a position. The inner `None` is a book without both
/// sides or without size, or no tick; the outer one a number that cannot be represented.
pub open spec fn targets(config: MicroPriceConfig, snapshot: Snapshot, position: Position) -> Option<
    Option<(Price, Price)>,
> {
    if snapshot.bids@.len() == 0 || snapshot.asks@.len() == 0 || config.tick_size@ <= 0 {
        Some(None)
    } else {
        let best_bid = snapshot.bids@[0].price.0;
        let best_ask = snapshot.asks@[0].price.0;
        let bid_size = snapshot.bids@[0].size.0;
        let ask_size = snapshot.asks@[0].size.0;
        match sum(bid_size, ask_size) {
            None => None,
            Some(total) => if total@ <= 0 {
                Some(None)
            } else {
                match weighted_mid(best_bid, bid_size, best_ask, ask_size, total) {
                    None => None,
                    Some(micro) => match (
                        snapped(config, micro),
                        inventory_shift(config, position.size.0),
                    ) {
                        (Some(quotes), Some(shift)) => match shifted(quotes, shift) {
                            None => None,
                            Some(quotes) => match clamped(
                                config.tick_size,
                                quotes,
                                best_bid,
                                best_ask,
                            ) {
                                None => None,
                                Some((bid, ask)) => Some(Some((Price(bid), Price(ask)))),
                            },
                        },
                        _ => None,
                    },
                }
            },
        }
    }
}

/// What a book at a time calls for.
pub open spec fn micro_step(
    state: MicroPrice,
    ctx: StrategyContext,
    snapshot: Snapshot,
    ts: Timestamp,
) -> Option<(MicroPrice, Seq<Action>)> {
    match targets(state.config, snapshot, *ctx.position) {
        None => None,
        Some(None) => Some((state, Seq::empty())),
        Some(Some((bid, ask))) => match requote_on_tick_drift(
            state.last_bid,
            state.last_ask,
            state.last_requote_ts,
            bid,
            ask,
            ts,
            state.config.min_requote_interval_ms,
            state.config.tick_size,
        ) {
            None => None,
            Some(false) => Some((state, seq![Action::NoOp])),
            Some(true) => Some(
                (
                    MicroPrice {
                        last_bid: Some(bid),
                        last_ask: Some(ask),
                        last_requote_ts: Some(ts),
                        ..state
                    },
                    quoted_pair(*ctx.symbol, bid, ask, state.config.size_per_quote),
                ),
            ),
        },
    }
}

impl MicroPrice {
    /// How far both quotes are shifted: not up for a long position and not down for a
    /// short one; see [`inventory_shift`].
    pub fn compute_inventory_skew(&self, position: &Position) -> (result: Option<Decimal>)
        ensures
            result == inventory_shift(self.config, position.size.0),
            result is Some && self.config.tick_size@ >= 0 ==> {
                &&& position.size.0@ >= 0 ==> result->0@ <= 0
                &&& position.size.0@ <= 0 ==> result->0@ >= 0
            },
    {
        proof {
            let most = self.config.max_skew_ticks as int;
            lemma_whole(1);
            lemma_whole(most);
            lemma_pow10_positive(28);
            let p = pow10(28);
            assert(most * p >= 0) by (nonlinear_arith)
                requires
                    p >= 1,
                    most >= 0,
            ;
        }
        let unit = self.config.skew_unit.0;
        if self.config.max_skew_ticks == 0 || !unit.is_positive() {
            return Some(Decimal::zero());
        }
        let pos = position.size.0;
        let most = Decimal::whole(self.config.max_skew_ticks as i64);
        let ticks = pos.abs().checked_div(unit)?.min(Decimal::whole(1)).checked_mul(most)?;
        let signed = if pos.is_positive() {
            ticks.negate()
        } else {
            ticks
        };
        signed.checked_mul(self.config.tick_size)
    }

    fn try_snapped(&self, micro: Decimal) -> (result: Option<(Decimal, Decimal)>)
        ensures
            result == snapped(self.config, micro),
            result matches Some((bid, ask)) ==> {
                let tick = self.config.tick_size;
                let half = product(whole(self.config.half_spread_ticks as int), tick)->0;
                let (below, above) = (difference(micro, half)->0, sum(micro, half)->0);
                &&& tick@ > 0 && exact_difference(micro, half) && exact_quotient(below, tick)
                    && exact_product(floor_of(quotient(below, tick)->0), tick) ==> bid@ <= micro@
                    - half@ < bid@ + tick@
                &&& tick@ > 0 && exact_sum(micro, half) && exact_quotient(above, tick)
                    && exact_product(ceil_of(quotient(above, tick)->0), tick) ==> ask@ - tick@
                    < micro@ + half@ <= ask@
                &&& exact_product(whole(self.config.half_spread_ticks as int), tick) ==> half@
                    == self.config.half_spread_ticks * tick@
            },
    {
        let tick = self.config.tick_size;
        let half = Decimal::whole(self.config.half_spread_ticks as i64).checked_mul(tick)?;
        let below = micro.checked_sub(half)?;
        let above = micro.checked_add(half)?;
        let down = below.checked_div(tick)?;
        let up = above.checked_div(tick)?;
        let bid = down.floor().checked_mul(tick)?;
        let ask = up.ceil().checked_mul(tick)?;
        proof {
            let (p, t) = (pow10(28), tick@);
            lemma_pow10_positive(28);
            lemma_whole(self.config.half_spread_ticks as int);
            let (n, h) = (self.config.half_spread_ticks as int, half@);
            assert(h * p == (n * p) * t ==> h == n * t) by (nonlinear_arith)
                requires
                    p >= 1,
            ;
            let (f, d, b, x) = (floor_of(down)@, down@, bid@, below@);
            assert(t > 0 && d * t == x * p && b * p == f * t ==> b <= x < b + t)
                by (nonlinear_arith)
                requires
                    p >= 1,
                    f <= d < f + p,
            ;
            let (c, u, a, y) = (ceil_of(up)@, up@, ask@, above@);
            assert(t > 0 && u * t == y * p && a * p == c * t ==> a - t < y <= a)
                by (nonlinear_arith)
                requires
                    p >= 1,
                    u <= c < u + p,
            ;
        }
        Some((bid, ask))
    }

    fn try_clamped(
        tick: Decimal,
        quotes: (Decimal, Decimal),
        best_bid: Decimal,
        best_ask: Decimal,
    ) -> (result: Option<(Decimal, Decimal)>)
        requires
            tick@ > 0,
        ensures
            result == clamped(tick, quotes, best_bid, best_ask),
            result matches Some((bid, ask)) ==> {
                &&& best_bid@ > 0 && subtracts_exactly(best_ask, tick) ==> bid@ < best_ask@
                &&& adds_exactly(best_bid, tick) ==> ask@ > best_bid@
                &&& subtracts_exactly(ask, tick) ==> bid@ < ask@
            },
    {
        let mut bid = quotes.0;
        let mut ask = quotes.1;
        if bid.is_at_least(best_ask) {
            bid = best_ask.checked_sub(tick)?;
        }
        if ask.is_at_most(best_bid) {
            ask = best_bid.checked_add(tick)?;
        }
        if bid.is_at_least(ask) {
            bid = ask.checked_sub(tick)?;
        }
        Some((bid, ask))
    }

    /// The target quotes for a book and a position; see [`targets`]. Where the tick is
    /// not lost in rounding, neither quote reaches the other side of the book, nor the
    /// other quote.
    pub fn try_targets(&self, snapshot: &Snapshot, position: &Position) -> (result: Option<
        Option<(Price, Price)>,
    >)
        ensures
            result == targets(self.config, *snapshot, *position),
            result matches Some(Some((bid, ask))) ==> {
                let best_bid = snapshot.bids@[0].price.0;
                let best_ask = snapshot.asks@[0].price.0;
                &&& best_bid@ > 0 && subtracts_exactly(best_ask, self.config.tick_size)
                    ==> bid.0@ < best_ask@
                &&& adds_exactly(best_bid, self.config.tick_size) ==> ask.0@ > best_bid@
                &&& subtracts_exactly(ask.0, self.config.tick_size) ==> bid.0@ < ask.0@
            },
    {
        let tick = self.config.tick_size;
        if snapshot.bids.len() == 0 || snapshot.asks.len() == 0 || !tick.is_positive() {
            return Some(None);
        }
        let best_bid = snapshot.bids[0].price.0;
        let best_ask = snapshot.asks[0].price.0;
        let bid_size = snapshot.bids[0].size.0;
        let ask_size = snapshot.asks[0].size.0;
        let total = bid_size.checked_add(ask_size)?;
        if !total.is_positive() {
            return Some(None);
        }
        let micro = try_weighted_mid(best_bid, bid_size, best_ask, ask_size, total)?;
        let (mut bid, mut ask) = self.try_snapped(micro)?;
        let shift = self.compute_inventory_skew(position)?;
        if !shift.is_zero() {
            bid = bid.checked_add(shift)?;
            ask = ask.checked_add(shift)?;
        }
        let (bid, ask) = Self::try_clamped(tick, (bid, ask), best_bid, best_ask)?;
        Some(Some((Price(bid), Price(ask))))
    }

    /// The target quotes for a book and a position, where there are any. Where the tick is
    /// not lost in rounding, neither quote reaches the other side of the book, nor the
    /// other quote.
    pub fn compute_targets(&self, snapshot: &Snapshot, position: &Position) -> (result: Option<
        (Price, Price),
    >)
        requires
            targets(self.config, *snapshot, *position) is Some,
        ensures
            Some(result) == targets(self.config, *snapshot, *position),
            result matches Some((bid, ask)) ==> {
                let best_bid = snapshot.bids@[0].price.0;
                let best_ask = snapshot.asks@[0].price.0;
                &&& best_bid@ > 0 && subtracts_exactly(best_ask, self.config.tick_size)
                    ==> bid.0@ < best_ask@
                &&& adds_exactly(best_bid, self.config.tick_size) ==> ask.0@ > best_bid@
                &&& subtracts_exactly(ask.0, self.config.tick_size) ==> bid.0@ < ask.0@
            },
    {
        self.try_targets(snapshot, position).unwrap()
    }

    fn step(&mut self, ctx: &StrategyContext<'_>, snapshot: &Snapshot, ts: Timestamp) -> (result:
        Option<Vec<Action>>)
        ensures
            follows(micro_step(*old(self), *ctx, *snapshot, ts), result, *final(self)),
    {
        let (bid, ask) = match self.try_targets(snapshot, ctx.position)? {
            Some(quotes) => quotes,
            None => {
                return Some(Vec::new());
            },
        };
        if !should_requote_on_tick_drift(
            self.last_bid,
            self.last_ask,
            self.last_requote_ts,
            bid,
            ask,
            ts,
            self.config.min_requote_interval_ms,
            self.config.tick_size,
        )? {
            return Some(vec![Action::NoOp]);
        }
        self.last_bid = Some(bid);
        self.last_ask = Some(ask);
        self.last_requote_ts = Some(ts);
        Some(post_only_pair(ctx.symbol, bid, ask, self.config.size_per_quote))
    }
}

impl Strategy for MicroPrice {
    type Config = MicroPriceConfig;

    open spec fn initial(config: MicroPriceConfig) -> Option<MicroPrice> {
        Some(MicroPrice { config, last_bid: None, last_ask: None, last_requote_ts: None })
    }

    open spec fn event_step(state: MicroPrice, ctx: StrategyContext, event: MarketEvent) -> Option<
        (MicroPrice, Seq<Action>),
    > {
        match event {
            MarketEvent::Heartbeat { ts } => micro_step(state, ctx, *ctx.latest_book, ts),
            MarketEvent::BookUpdate { snapshot } => micro_step(state, ctx, snapshot, snapshot.ts),
            _ => Some((state, Seq::empty())),
        }
    }

    open spec fn rejection_step(
        state: MicroPrice,
        ctx: StrategyContext,
        intent: QuoteIntent,
        reason: Seq<char>,
    ) -> Option<(MicroPrice, Seq<Action>)> {
        Some((state, Seq::empty()))
    }

    fn try_new(config: MicroPriceConfig) -> (result: Option<MicroPrice>) {
        Some(MicroPrice { config, last_bid: None, last_ask: None, last_requote_ts: None })
    }

    fn name(&self) -> (result: &str)
        ensures
            result@ == "micro-price"@,
    {
        "micro-price"
    }

    fn try_on_event(&mut self, ctx: &StrategyContext<'_>, event: &MarketEvent) -> (result: Option<
        Vec<Action>,
    >) {
        match event {
            MarketEvent::Trade { .. } | MarketEvent::Fill(_) => Some(Vec::new()),
            MarketEvent::Heartbeat { ts } => self.step(ctx, ctx.latest_book, *ts),
            MarketEvent::BookUpdate { snapshot } => self.step(ctx, snapshot, snapshot.ts),
        }
    }

    fn try_on_quote_rejected(
        &mut self,
        ctx: &StrategyContext<'_>,
        intent: &QuoteIntent,
        reason: &str,
    ) -> (result: Option<Vec<Action>>) {
        Some(Vec::new())
    }
}

/// With no skew configured the position does not matter to the targets.
pub proof fn law_no_skew_ignores_the_position(
    config: MicroPriceConfig,
    snapshot: Snapshot,
    one: Position,
    other: Position,
)
    requires
        config.max_skew_ticks == 0,
    ensures
        targets(config, snapshot, one) == targets(config, snapshot, other),
{
}

/// Trades and fills change nothing.
pub proof fn law_trades_and_fills_are_ignored(
    state: MicroPrice,
    ctx: StrategyContext,
    event: MarketEvent,
)
    requires
        event is Trade || event is Fill,
    ensures
        MicroPrice::event_step(state, ctx, event) == Some((state, Seq::<Action>::empty())),
{
}

/// No event and no rejection calls for an order in another instrument.
pub proof fn law_quotes_its_instrument(
    state: MicroPrice,
    ctx: StrategyContext,
    event: MarketEvent,
    intent: QuoteIntent,
    reason: Seq<char>,
)
    ensures
        MicroPrice::event_step(state, ctx, event) matches Some((_, actions)) ==> keeps_to(
            actions,
            *ctx.symbol,
        ),
        MicroPrice::rejection_step(state, ctx, intent, reason) matches Some((_, actions))
            ==> keeps_to(actions, *ctx.symbol),
{
}

/// Below a full unit of inventory the shift grows with it, in fractions of the largest one; from
/// there on it stays. It is down for a long and up for a short.
pub proof fn law_shift_grows_up_to_the_most(
    config: MicroPriceConfig,
    pos: Decimal,
    full: Decimal,
    ticks: Decimal,
)
    requires
        config.max_skew_ticks > 0,
        config.skew_unit.0@ > 0,
        quotient(absolute(pos), config.skew_unit.0) == Some(full),
        full@ <= whole(1)@ ==> product(full, whole(config.max_skew_ticks as int)) == Some(ticks),
        full@ > whole(1)@ ==> product(whole(1), whole(config.max_skew_ticks as int)) == Some(
            ticks,
        ),
    ensures
        pos@ > 0 ==> inventory_shift(config, pos) == product(negated(ticks), config.tick_size),
        pos@ <= 0 ==> inventory_shift(config, pos) == product(ticks, config.tick_size),
{
}

/// Both quotes are shifted by the same amount.
pub proof fn law_shift_keeps_the_spread(quotes: (Decimal, Decimal), shift: Decimal)
    requires
        exact_sum(quotes.0, shift),
        exact_sum(quotes.1, shift),
    ensures
        shifted(quotes, shift) is Some,
        (shifted(quotes, shift)->0).0@ == quotes.0@ + shift@,
        (shifted(quotes, shift)->0).1@ == quotes.1@ + shift@,
{
}

/// Quotes that cross neither the book nor each other are left as they are.
pub proof fn law_clear_quotes_are_not_clamped(
    tick: Decimal,
    quotes: (Decimal, Decimal),
    best_bid: Decimal,
    best_ask: Decimal,
)
    requires
        quotes.0@ < best_ask@,
        quotes.1@ > best_bid@,
        quotes.0@ < quotes.1@,
    ensures
        clamped(tick, quotes, best_bid, best_ask) == Some(quotes),
{
}

/// Quotes are placed at the targets of the book, one on each side, and remembered.
pub proof fn law_quotes_stand_at_the_targets(
    state: MicroPrice,
    ctx: StrategyContext,
    snapshot: Snapshot,
    ts: Timestamp,
    bid: Price,
    ask: Price,
)
    requires
        targets(state.config, snapshot, *ctx.position) == Some(Some((bid, ask))),
    ensures
        micro_step(state, ctx, snapshot, ts) matches Some((next, actions)) ==> actions.len() > 1 ==> {
            &&& quotes_on(actions, Side::Bid) && quotes_on(actions, Side::Ask)
            &&& forall|i: int|
                0 <= i < actions.len() ==> (#[trigger] actions[i] matches Action::Quote(order) ==> {
                    &&& order.side is Bid ==> order.price == bid
                    &&& order.side is Ask ==> order.price == ask
                    &&& order.size == state.config.size_per_quote
                })
            &&& next.last_bid == Some(bid) && next.last_ask == Some(ask)
            &&& next.last_requote_ts == Some(ts)
        },
        micro_step(state, ctx, snapshot, ts) matches Some((next, actions)) ==> actions.len() <= 1
            ==> next == state,
{
    if let Some((next, actions)) = micro_step(state, ctx, snapshot, ts) {
        if actions.len() > 1 {
            assert(actions[1] is Quote);
            assert(actions[2] is Quote);
        }
    }
}

/// Around the micro-price the bid is the tick at or below half a spread under it, the ask the
/// tick at or above half a spread over it.
pub proof fn law_quotes_are_on_the_tick_grid(
    config: MicroPriceConfig,
    micro: Decimal,
    half: Decimal,
    below: Decimal,
    above: Decimal,
    down: Decimal,
    up: Decimal,
)
    requires
        product(whole(config.half_spread_ticks as int), config.tick_size) == Some(half),
        difference(micro, half) == Some(below),
        sum(micro, half) == Some(above),
        quotient(below, config.tick_size) == Some(down),
        quotient(above, config.tick_size) == Some(up),
    ensures
        snapped(config, micro) matches Some((bid, ask)) ==> {
            &&& product(whole(floor_int(down)), config.tick_size) == Some(bid)
            &&& product(whole(ceil_int(up)), config.tick_size) == Some(ask)
        },
{
}

/// A quote that would reach the other side of the book is put a tick short of it.
pub proof fn law_crossing_quotes_are_clamped(
    tick: Decimal,
    quotes: (Decimal, Decimal),
    best_bid: Decimal,
    best_ask: Decimal,
)
    ensures
        quotes.0@ >= best_ask@ ==> clamped_bid(tick, quotes.0, best_ask) == difference(
            best_ask,
            tick,
        ),
        quotes.0@ < best_ask@ ==> clamped_bid(tick, quotes.0, best_ask) == Some(quotes.0),
        quotes.1@ <= best_bid@ ==> clamped_ask(tick, quotes.1, best_bid) == sum(best_bid, tick),
        quotes.1@ > best_bid@ ==> clamped_ask(tick, quotes.1, best_bid) == Some(quotes.1),
{
}

} // verus!
