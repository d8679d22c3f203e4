//! Simple fixed-gap pair strategy.
//!
//! Places one post-only bid and one post-only ask at a fixed bps gap from the
//! book mid. On every fill it places another fresh pair at the latest mid. It
//! does not cancel, skew, requote, or manage inventory.

use crate::decimal::{
    exact_quotient, lemma_whole, minus, plus, pow10, quotient, times, whole, Decimal,
};
use crate::market::{
    maker_order, Fill, MarketEvent, Price, QuoteIntent, Side, Size, Snapshot, Symbol,
};
use crate::quoting::{
    bps_fraction, compute_mid_strict, lemma_lies_away, lies_away, make_post_only_intent, mid_strict,
    moves_exactly, price_away, try_bps_fraction, try_price_away,
};
use crate::strategy::{keeps_to, Action, Strategy, StrategyContext};
use vstd::prelude::*;

verus! {

/// Configuration for [`SimpleGap`].
#[derive(Clone, Copy, Debug)]
pub struct SimpleGapConfig {
    /// Fiat notional per order. Quantity is `notional_per_order / price`.
    pub notional_per_order: Decimal,
    /// Distance from mid for each side, in basis points.
    pub gap_bps: u32,
}

/// Fixed-gap pair strategy.
pub struct SimpleGap {
    /// Settings.
    pub config: SimpleGapConfig,
    /// Whether the first pair has been placed.
    pub seeded: bool,
}

impl View for SimpleGap {
    type V = Self;

    open spec fn view(&self) -> Self {
        *self
    }
}

/// The post-only quote on one side of `mid`, `gap_bps` away from it.
pub open spec fn gap_quote(config: SimpleGapConfig, symbol: Symbol, mid: Price, side: Side) -> Option<
    Action,
> {
    match price_away(mid.0, side, bps_fraction(config.gap_bps as int)) {
        None => None,
        Some(price) => match quotient(config.notional_per_order, price) {
            None => None,
            Some(size) => Some(Action::Quote(maker_order(symbol, side, price, size))),
        },
    }
}

/// One quote on each side of `mid`.
pub open spec fn gap_pair(config: SimpleGapConfig, symbol: Symbol, mid: Price) -> Option<
    Seq<Action>,
> {
    match (gap_quote(config, symbol, mid, Side::Bid), gap_quote(config, symbol, mid, Side::Ask)) {
        (Some(bid), Some(ask)) => Some(seq![bid, ask]),
        _ => None,
    }
}

/// A pair around the mid of `book`, or nothing where the book is one-sided.
pub open spec fn pair_on_book(state: SimpleGap, symbol: Symbol, book: Snapshot) -> Option<
    (SimpleGap, Seq<Action>),
> {
    match mid_strict(book) {
        None => None,
        Some(None) => Some((state, Seq::empty())),
        Some(Some(mid)) => match gap_pair(state.config, symbol, mid) {
            None => None,
            Some(pair) => Some((state, pair)),
        },
    }
}

impl SimpleGap {
    fn make_side(&self, symbol: &Symbol, mid: Price, side: Side) -> (result: Option<Action>)
        ensures
            result == gap_quote(self.config, *symbol, mid, side),
            result is Some ==> {
                let order = result->0->Quote_0;
                let away = bps_fraction(self.config.gap_bps as int)->0;
                &&& result->0 is Quote && order.side == side
                &&& side is Bid && mid.0@ >= 0 ==> order.price.0@ <= mid.0@
                &&& side is Ask && mid.0@ >= 0 ==> order.price.0@ >= mid.0@
                &&& moves_exactly(mid.0, side, away) ==> lies_away(
                    order.price.0@,
                    mid.0@,
                    side,
                    self.config.gap_bps as int,
                )
                &&& exact_quotient(self.config.notional_per_order, order.price.0)
                    ==> order.size.0@ * order.price.0@ == self.config.notional_per_order@ * pow10(28)
            },
    {
        let gap = try_bps_fraction(self.config.gap_bps)?;
        let price = try_price_away(mid.0, side, gap)?;
        proof {
            if moves_exactly(mid.0, side, gap) {
                lemma_whole(1);
                lemma_lies_away(price@, mid.0@, side, self.config.gap_bps as int);
            }
        }
        let size = self.config.notional_per_order.checked_div(price)?;
        Some(Action::Quote(make_post_only_intent(symbol, side, Price(price), Size(size))))
    }

    fn make_pair(&self, symbol: &Symbol, mid: Price) -> (result: Option<Vec<Action>>)
        ensures
            match gap_pair(self.config, *symbol, mid) {
                Some(pair) => result is Some && result->0@ == pair,
                None => result is None,
            },
    {
        let bid = self.make_side(symbol, mid, Side::Bid)?;
        let ask = self.make_side(symbol, mid, Side::Ask)?;
        Some(vec![bid, ask])
    }
}

impl Strategy for SimpleGap {
    type Config = SimpleGapConfig;

    open spec fn initial(config: SimpleGapConfig) -> Option<SimpleGap> {
        Some(SimpleGap { config, seeded: false })
    }

    open spec fn event_step(state: SimpleGap, ctx: StrategyContext, event: MarketEvent) -> Option<
        (SimpleGap, Seq<Action>),
    > {
        match event {
            MarketEvent::BookUpdate { snapshot } => if state.seeded {
                Some((state, Seq::empty()))
            } else {
                let two_sided = mid_strict(snapshot) matches Some(Some(_));
                pair_on_book(SimpleGap { seeded: two_sided, ..state }, *ctx.symbol, snapshot)
            },
            MarketEvent::Fill(_) => pair_on_book(state, *ctx.symbol, *ctx.latest_book),
            _ => Some((state, Seq::empty())),
        }
    }

    open spec fn rejection_step(
        state: SimpleGap,
        ctx: StrategyContext,
        intent: QuoteIntent,
        reason: Seq<char>,
    ) -> Option<(SimpleGap, Seq<Action>)> {
        match mid_strict(*ctx.latest_book) {
            None => None,
            Some(None) => Some((state, Seq::empty())),
            Some(Some(mid)) => match gap_quote(state.config, *ctx.symbol, mid, intent.side) {
                None => None,
                Some(quote) => Some((state, seq![quote])),
            },
        }
    }

    fn try_new(config: SimpleGapConfig) -> (result: Option<SimpleGap>) {
        Some(SimpleGap { config, seeded: false })
    }

    fn name(&self) -> (result: &str)
        ensures
            result@ == "simple-gap"@,
    {
        "simple-gap"
    }

    fn try_on_event(&mut self, ctx: &StrategyContext<'_>, event: &MarketEvent) -> (result: Option<
        Vec<Action>,
    >) {
        match event {
            MarketEvent::BookUpdate { snapshot } => {
                if self.seeded {
                    return Some(Vec::new());
                }
                match compute_mid_strict(snapshot)? {
                    None => Some(Vec::new()),
                    Some(mid) => {
                        self.seeded = true;
                        self.make_pair(ctx.symbol, mid)
                    },
                }
            },
            MarketEvent::Fill(_) => {
                match compute_mid_strict(ctx.latest_book)? {
                    None => Some(Vec::new()),
                    Some(mid) => self.make_pair(ctx.symbol, mid),
                }
            },
            _ => Some(Vec::new()),
        }
    }

    fn try_on_quote_rejected(
        &mut self,
        ctx: &StrategyContext<'_>,
        intent: &QuoteIntent,
        reason: &str,
    ) -> (result: Option<Vec<Action>>) {
        match compute_mid_strict(ctx.latest_book)? {
            None => Some(Vec::new()),
            Some(mid) => {
                let quote = self.make_side(ctx.symbol, mid, intent.side)?;
                Some(vec![quote])
            },
        }
    }
}

/// Nothing is ever cancelled or requoted.
pub proof fn law_only_quotes(
    state: SimpleGap,
    ctx: StrategyContext,
    event: MarketEvent,
    intent: QuoteIntent,
    reason: Seq<char>,
)
    ensures
        SimpleGap::event_step(state, ctx, event) matches Some((_, actions)) ==> forall|i: int|
            0 <= i < actions.len() ==> (#[trigger] actions[i]) is Quote,
        SimpleGap::rejection_step(state, ctx, intent, reason) matches Some((_, actions))
            ==> forall|i: int| 0 <= i < actions.len() ==> (#[trigger] actions[i]) is Quote,
{
}

/// Only the instrument and the book matter, not the position or what rests.
pub proof fn law_inventory_does_not_matter(
    state: SimpleGap,
    ctx: StrategyContext,
    other: StrategyContext,
    event: MarketEvent,
)
    requires
        *ctx.symbol == *other.symbol,
        *ctx.latest_book == *other.latest_book,
    ensures
        SimpleGap::event_step(state, ctx, event) == SimpleGap::event_step(state, other, event),
{
}

/// No event and no rejection calls for an order in another instrument.
pub proof fn law_quotes_its_instrument(
    state: SimpleGap,
    ctx: StrategyContext,
    event: MarketEvent,
    intent: QuoteIntent,
    reason: Seq<char>,
)
    ensures
        SimpleGap::event_step(state, ctx, event) matches Some((_, actions)) ==> keeps_to(
            actions,
            *ctx.symbol,
        ),
        SimpleGap::rejection_step(state, ctx, intent, reason) matches Some((_, actions))
            ==> keeps_to(actions, *ctx.symbol),
{
}

/// A pair is one bid and one ask, each its gap from the mid.
pub proof fn law_pair_straddles_the_mid(config: SimpleGapConfig, symbol: Symbol, mid: Price)
    ensures
        gap_pair(config, symbol, mid) matches Some(pair) ==> {
            let gap = quotient(whole(config.gap_bps as int), whole(10_000));
            let (bid, ask) = (pair[0]->Quote_0, pair[1]->Quote_0);
            &&& pair.len() == 2 && pair[0] is Quote && pair[1] is Quote
            &&& bid.side is Bid && Some(bid.price.0) == times(
                Some(mid.0),
                minus(Some(whole(1)), gap),
            )
            &&& ask.side is Ask && Some(ask.price.0) == times(Some(mid.0), plus(Some(whole(1)), gap))
            &&& Some(bid.size.0) == quotient(config.notional_per_order, bid.price.0)
            &&& Some(ask.size.0) == quotient(config.notional_per_order, ask.price.0)
        },
{
}

/// The first book with both sides is quoted around, once; every fill is answered by a new pair,
/// and a rejection by a new quote on the rejected side.
pub proof fn law_pairs_answer_fills(
    state: SimpleGap,
    ctx: StrategyContext,
    snapshot: Snapshot,
    fill: Fill,
    mid: Price,
    intent: QuoteIntent,
    reason: Seq<char>,
)
    requires
        mid_strict(snapshot) == Some(Some(mid)),
        mid_strict(*ctx.latest_book) == Some(Some(mid)),
    ensures
        SimpleGap::event_step(state, ctx, MarketEvent::BookUpdate { snapshot }) matches Some(
            (next, actions),
        ) ==> next.seeded && (state.seeded ==> actions.len() == 0) && (!state.seeded ==> Some(
            actions,
        ) == gap_pair(state.config, *ctx.symbol, mid)),
        SimpleGap::event_step(state, ctx, MarketEvent::Fill(fill)) matches Some((next, actions))
            ==> next == state && Some(actions) == gap_pair(state.config, *ctx.symbol, mid),
        SimpleGap::rejection_step(state, ctx, intent, reason) matches Some((next, actions))
            ==> next == state && actions.len() == 1 && actions[0] is Quote
            && actions[0]->Quote_0.side == intent.side,
{
}

} // verus!
