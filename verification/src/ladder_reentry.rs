//! A seed ladder that re-enters after every full fill.
//!
//! A symmetric ladder is placed around the first mid. Each full fill adds two orders: a
//! continuation farther out on the filled side and a re-entry on the other side, and
//! drops the order on that other side that is furthest away. Where the venue refuses an
//! order for want of margin, the position is reduced instead.

use crate::decimal::{
    absolute, exact_quotient, lemma_whole, lesser, minus, plus, pow10, quotient, times, whole,
    Decimal,
};
use crate::market::{
    maker_order, opposite, Fill, MarketEvent, Price, QuoteId, QuoteIntent, Side, Size, Snapshot,
    Symbol,
};
use crate::quoting::{
    bps_fraction, compute_mid_strict, lemma_lies_away, lies_away, make_post_only_intent, mentions,
    mid_strict, moves_exactly, price_away, text_contains, try_bps_fraction, try_price_away,
};
use crate::strategy::{keeps_to, Action, Strategy, StrategyContext};
use vstd::prelude::*;

verus! {

/// Configuration for [`LadderReentry`].
#[derive(Clone, Copy, Debug)]
pub struct LadderReentryConfig {
    /// Notional per order.
    pub notional_per_order: Decimal,
    /// Orders per side of the seed ladder.
    pub levels_per_side: u32,
    /// Distance of the innermost level from the mid, in bps.
    pub inner_bps: u32,
    /// Distance from each level to the next, in bps.
    pub step_bps: u32,
    /// Distance of the order on the other side after a fill, in bps.
    pub reentry_bps: u32,
    /// Distance of the order on the filled side after a fill, in bps.
    pub continuation_bps: u32,
}

/// Ladder re-entry strategy.
#[derive(Clone, Copy, Debug)]
pub struct LadderReentry {
    /// Settings.
    pub config: LadderReentryConfig,
    /// Whether the seed ladder was placed.
    pub seeded: bool,
}

impl View for LadderReentry {
    type V = LadderReentry;

    open spec fn view(&self) -> LadderReentry {
        *self
    }
}

/// The order of the configured notional `bps` away from a price.
pub open spec fn quote_away(
    config: LadderReentryConfig,
    symbol: Symbol,
    from: Decimal,
    side: Side,
    bps: int,
) -> Option<Action> {
    match price_away(from, side, bps_fraction(bps)) {
        None => None,
        Some(price) => match quotient(config.notional_per_order, price) {
            None => None,
            Some(size) => Some(Action::Quote(maker_order(symbol, side, price, size))),
        },
    }
}

/// The first `n` levels of the seed ladder, bid before ask on each.
pub open spec fn seed_levels(
    config: LadderReentryConfig,
    symbol: Symbol,
    mid: Decimal,
    n: nat,
) -> Option<Seq<Action>>
    decreases n,
{
    if n == 0 {
        Some(Seq::empty())
    } else {
        let bps = config.inner_bps + config.step_bps * (n - 1);
        if bps > u32::MAX {
            None
        } else {
            match (
                seed_levels(config, symbol, mid, (n - 1) as nat),
                quote_away(config, symbol, mid, Side::Bid, bps),
                quote_away(config, symbol, mid, Side::Ask, bps),
            ) {
                (Some(done), Some(bid), Some(ask)) => Some(done.push(bid).push(ask)),
                _ => None,
            }
        }
    }
}

/// The seed ladder.
pub open spec fn seed_ladder(config: LadderReentryConfig, symbol: Symbol, mid: Decimal) -> Option<
    Seq<Action>,
> {
    if config.levels_per_side * 2 > u32::MAX {
        None
    } else {
        seed_levels(config, symbol, mid, config.levels_per_side as nat)
    }
}

/// The index of the furthest of `n` resting quotes on a side: the last of the highest
/// asks, or the first of the lowest bids.
pub open spec fn furthest(open: Seq<(QuoteId, QuoteIntent)>, side: Side, n: nat) -> Option<int>
    decreases n,
{
    if n == 0 {
        None
    } else {
        let best = furthest(open, side, (n - 1) as nat);
        if open[n - 1].1.side != side {
            best
        } else {
            match best {
                None => Some(n - 1),
                Some(i) => {
                    let further = match side {
                        Side::Ask => open[n - 1].1.price.0@ >= open[i].1.price.0@,
                        Side::Bid => open[n - 1].1.price.0@ < open[i].1.price.0@,
                    };
                    if further {
                        Some(n - 1)
                    } else {
                        Some(i)
                    }
                },
            }
        }
    }
}

/// The actions after a full fill: continuation, re-entry, and the cancel of the order
/// furthest away on the other side.
pub open spec fn reentries(config: LadderReentryConfig, ctx: StrategyContext, fill: Fill) -> Option<
    Seq<Action>,
> {
    let open = ctx.open_quotes@;
    match (
        quote_away(
            config,
            *ctx.symbol,
            fill.price.0,
            fill.side,
            config.continuation_bps as int,
        ),
        quote_away(
            config,
            *ctx.symbol,
            fill.price.0,
            opposite(fill.side),
            config.reentry_bps as int,
        ),
    ) {
        (Some(continuation), Some(reentry)) => Some(
            match furthest(open, opposite(fill.side), open.len()) {
                None => seq![continuation, reentry],
                Some(i) => seq![continuation, reentry, Action::Cancel(open[i].0)],
            },
        ),
        _ => None,
    }
}

/// The order that reduces the position at the touch, by at most one order's worth.
pub open spec fn reduction(config: LadderReentryConfig, ctx: StrategyContext) -> Option<
    Seq<Action>,
> {
    let pos = ctx.position.size.0;
    let (side, book) = if pos@ > 0 {
        (Side::Ask, ctx.latest_book.asks@)
    } else {
        (Side::Bid, ctx.latest_book.bids@)
    };
    if pos@ == 0 || book.len() == 0 || book[0].price.0@ <= 0 {
        Some(Seq::empty())
    } else {
        match quotient(config.notional_per_order, book[0].price.0) {
            None => None,
            Some(most) => {
                let size = lesser(absolute(pos), most);
                Some(
                    if size@ <= 0 {
                        Seq::empty()
                    } else {
                        seq![
                            Action::Quote(
                                maker_order(*ctx.symbol, side, book[0].price.0, size),
                            ),
                        ]
                    },
                )
            },
        }
    }
}

/// Whether the venue refused an order for want of margin.
pub open spec fn lacks_margin(reason: Seq<char>) -> bool {
    mentions(reason, "-2019"@) || mentions(reason, "margin insufficient"@)
}

proof fn lemma_seed_fails(
    config: LadderReentryConfig,
    symbol: Symbol,
    mid: Decimal,
    less: nat,
    more: nat,
)
    requires
        less <= more,
        seed_levels(config, symbol, mid, less) is None,
    ensures
        seed_levels(config, symbol, mid, more) is None,
    decreases more,
{
    if less < more {
        lemma_seed_fails(config, symbol, mid, less, (more - 1) as nat);
    }
}

fn find_furthest(open: &[(QuoteId, QuoteIntent)], side: Side) -> (result: Option<usize>)
    ensures
        match result {
            Some(i) => i < open@.len() && furthest(open@, side, open@.len()) == Some(i as int),
            None => furthest(open@, side, open@.len()) is None,
        },
{
    let mut best: Option<usize> = None;
    let mut n: usize = 0;
    while n < open.len()
        invariant
            n <= open@.len(),
            match best {
                Some(b) => b < n && furthest(open@, side, n as nat) == Some(b as int),
                None => furthest(open@, side, n as nat) is None,
            },
        decreases open@.len() - n,
    {
        if open[n].1.side == side {
            match best {
                None => {
                    best = Some(n);
                },
                Some(b) => {
                    let further = match side {
                        Side::Ask => open[n].1.price.0.is_at_least(open[b].1.price.0),
                        Side::Bid => open[n].1.price.0.is_less(open[b].1.price.0),
                    };
                    if further {
                        best = Some(n);
                    }
                },
            }
        }
        n = n + 1;
    }
    best
}

impl LadderReentry {
    fn make_quote_away(&self, symbol: &Symbol, from: Decimal, side: Side, bps: u32) -> (result:
        Option<Action>)
        ensures
            result == quote_away(self.config, *symbol, from, side, bps as int),
            result is Some ==> {
                let order = result->0->Quote_0;
                &&& result->0 is Quote && order.side == side
                &&& side is Bid && from@ >= 0 ==> order.price.0@ <= from@
                &&& side is Ask && from@ >= 0 ==> order.price.0@ >= from@
                &&& moves_exactly(from, side, bps_fraction(bps as int)->0) ==> lies_away(
                    order.price.0@,
                    from@,
                    side,
                    bps as int,
                )
                &&& exact_quotient(self.config.notional_per_order, order.price.0)
                    ==> order.size.0@ * order.price.0@ == self.config.notional_per_order@ * pow10(28)
            },
    {
        let away = try_bps_fraction(bps)?;
        let price = try_price_away(from, side, away)?;
        proof {
            if moves_exactly(from, side, away) {
                lemma_whole(1);
                lemma_lies_away(price@, from@, side, bps as int);
            }
        }
        let size = self.config.notional_per_order.checked_div(price)?;
        Some(Action::Quote(make_post_only_intent(symbol, side, Price(price), Size(size))))
    }

    fn try_seed_ladder(&self, symbol: &Symbol, mid: Decimal) -> (result: Option<Vec<Action>>)
        ensures
            match seed_ladder(self.config, *symbol, mid) {
                Some(quotes) => result is Some && result->0@ =~= quotes,
                None => result is None,
            },
    {
        let n: u32 = self.config.levels_per_side;
        if n > u32::MAX / 2 {
            return None;
        }
        let mut quotes: Vec<Action> = Vec::new();
        let mut k: u32 = 0;
        while k < n
            invariant
                k <= n,
                n == self.config.levels_per_side,
                n * 2 <= u32::MAX,
                seed_levels(self.config, *symbol, mid, k as nat) == Some(quotes@),
            decreases n - k,
        {
            proof {
                if seed_levels(self.config, *symbol, mid, (k + 1) as nat) is None {
                    lemma_seed_fails(self.config, *symbol, mid, (k + 1) as nat, n as nat);
                }
            }
            let further: u32 = self.config.step_bps.checked_mul(k)?;
            let bps: u32 = self.config.inner_bps.checked_add(further)?;
            let bid = self.make_quote_away(symbol, mid, Side::Bid, bps)?;
            let ask = self.make_quote_away(symbol, mid, Side::Ask, bps)?;
            quotes.push(bid);
            quotes.push(ask);
            k = k + 1;
        }
        Some(quotes)
    }

    fn make_reentries(&self, ctx: &StrategyContext<'_>, fill: &Fill) -> (result: Option<Vec<Action>>)
        ensures
            match reentries(self.config, *ctx, *fill) {
                Some(actions) => result is Some && result->0@ =~= actions,
                None => result is None,
            },
    {
        let other = fill.side.opposite();
        let continuation = self.make_quote_away(
            ctx.symbol,
            fill.price.0,
            fill.side,
            self.config.continuation_bps,
        )?;
        let reentry = self.make_quote_away(
            ctx.symbol,
            fill.price.0,
            other,
            self.config.reentry_bps,
        )?;
        match find_furthest(ctx.open_quotes, other) {
            None => Some(vec![continuation, reentry]),
            Some(i) => Some(vec![continuation, reentry, Action::Cancel(ctx.open_quotes[i].0)]),
        }
    }

    fn make_rebalance(&self, ctx: &StrategyContext<'_>) -> (result: Option<Vec<Action>>)
        ensures
            match reduction(self.config, *ctx) {
                Some(actions) => result is Some && result->0@ =~= actions,
                None => result is None,
            },
    {
        let pos = ctx.position.size.0;
        if pos.is_zero() {
            return Some(Vec::new());
        }
        let long = pos.is_positive();
        let side = if long {
            Side::Ask
        } else {
            Side::Bid
        };
        let book = if long {
            &ctx.latest_book.asks
        } else {
            &ctx.latest_book.bids
        };
        if book.len() == 0 || !book[0].price.0.is_positive() {
            return Some(Vec::new());
        }
        let price = book[0].price;
        let most = self.config.notional_per_order.checked_div(price.0)?;
        let size = pos.abs().min(most);
        if !size.is_positive() {
            return Some(Vec::new());
        }
        Some(vec![Action::Quote(make_post_only_intent(ctx.symbol, side, price, Size(size)))])
    }
}

impl Strategy for LadderReentry {
    type Config = LadderReentryConfig;

    open spec fn initial(config: LadderReentryConfig) -> Option<LadderReentry> {
        Some(LadderReentry { config, seeded: false })
    }

    open spec fn event_step(state: LadderReentry, ctx: StrategyContext, event: MarketEvent)
        -> Option<(LadderReentry, Seq<Action>)> {
        match event {
            MarketEvent::BookUpdate { snapshot } => if state.seeded {
                Some((state, Seq::empty()))
            } else {
                match mid_strict(snapshot) {
                    None => None,
                    Some(None) => Some((state, Seq::empty())),
                    Some(Some(mid)) => match seed_ladder(state.config, *ctx.symbol, mid.0) {
                        None => None,
                        Some(quotes) => Some((LadderReentry { seeded: true, ..state }, quotes)),
                    },
                }
            },
            MarketEvent::Fill(fill) => if fill.is_full {
                match reentries(state.config, ctx, fill) {
                    None => None,
                    Some(actions) => Some((state, actions)),
                }
            } else {
                Some((state, Seq::empty()))
            },
            _ => Some((state, Seq::empty())),
        }
    }

    open spec fn rejection_step(
        state: LadderReentry,
        ctx: StrategyContext,
        intent: QuoteIntent,
        reason: Seq<char>,
    ) -> Option<(LadderReentry, Seq<Action>)> {
        if lacks_margin(reason) {
            match reduction(state.config, ctx) {
                None => None,
                Some(actions) => Some((state, actions)),
            }
        } else {
            match mid_strict(*ctx.latest_book) {
                None => None,
                Some(None) => Some((state, Seq::empty())),
                Some(Some(mid)) => match quote_away(
                    state.config,
                    *ctx.symbol,
                    mid.0,
                    intent.side,
                    state.config.inner_bps as int,
                ) {
                    None => None,
                    Some(quote) => Some((state, seq![quote])),
                },
            }
        }
    }

    fn try_new(config: LadderReentryConfig) -> (result: Option<LadderReentry>) {
        Some(LadderReentry { config, seeded: false })
    }

    fn name(&self) -> (result: &str)
        ensures
            result@ == "ladder-reentry"@,
    {
        "ladder-reentry"
    }

    fn try_on_event(&mut self, ctx: &StrategyContext<'_>, event: &MarketEvent) -> (result: Option<
        Vec<Action>,
    >) {
        match event {
            MarketEvent::BookUpdate { snapshot } => {
                if self.seeded {
                    return Some(Vec::new());
                }
                match compute_mid_strict(snapshot)? {
                    None => Some(Vec::new()),
                    Some(mid) => {
                        self.seeded = true;
                        self.try_seed_ladder(ctx.symbol, mid.0)
                    },
                }
            },
            MarketEvent::Fill(fill) => {
                if fill.is_full {
                    self.make_reentries(ctx, fill)
                } else {
                    Some(Vec::new())
                }
            },
            _ => Some(Vec::new()),
        }
    }

    fn try_on_quote_rejected(
        &mut self,
        ctx: &StrategyContext<'_>,
        intent: &QuoteIntent,
        reason: &str,
    ) -> (result: Option<Vec<Action>>) {
        if text_contains(reason, "-2019") || text_contains(reason, "margin insufficient") {
            return self.make_rebalance(ctx);
        }
        match compute_mid_strict(ctx.latest_book)? {
            None => Some(Vec::new()),
            Some(mid) => {
                let quote = self.make_quote_away(
                    ctx.symbol,
                    mid.0,
                    intent.side,
                    self.config.inner_bps,
                )?;
                Some(vec![quote])
            },
        }
    }

    fn on_notional_updated(
        &mut self,
        ctx: &StrategyContext<'_>,
        notional_per_order: Decimal,
    ) -> (result: Vec<Action>)
        ensures
            notional_per_order@ <= 0 || notional_per_order@ == old(self).config.notional_per_order@
                ==> result@.len() == 0 && *final(self) == *old(self),
            notional_per_order@ > 0 && notional_per_order@ != old(self).config.notional_per_order@
                ==> result@ =~= seq![Action::CancelAll] && *final(self) == (LadderReentry {
                config: LadderReentryConfig { notional_per_order, ..old(self).config },
                seeded: false,
            }),
    {
        if !notional_per_order.is_positive() || notional_per_order.equals(
            self.config.notional_per_order,
        ) {
            return Vec::new();
        }
        self.config.notional_per_order = notional_per_order;
        self.seeded = false;
        vec![Action::CancelAll]
    }
}

/// The seed ladder has its number of orders on both sides, bid and ask in turn.
pub proof fn law_seed_ladder_is_complete(
    config: LadderReentryConfig,
    symbol: Symbol,
    mid: Decimal,
    n: nat,
)
    ensures
        seed_levels(config, symbol, mid, n) matches Some(quotes) ==> quotes.len() == 2 * n
            && forall|i: int|
            0 <= i < quotes.len() ==> match #[trigger] quotes[i] {
                Action::Quote(order) => order.side == if i % 2 == 0 {
                    Side::Bid
                } else {
                    Side::Ask
                },
                _ => false,
            },
    decreases n,
{
    if n > 0 {
        law_seed_ladder_is_complete(config, symbol, mid, (n - 1) as nat);
    }
}

proof fn lemma_furthest(open: Seq<(QuoteId, QuoteIntent)>, side: Side, n: nat, j: int)
    requires
        n <= open.len(),
    ensures
        furthest(open, side, n) matches Some(i) ==> 0 <= i < n && open[i].1.side == side,
        0 <= j < n && open[j].1.side == side ==> furthest(open, side, n) is Some && match side {
            Side::Ask => open[furthest(open, side, n)->0].1.price.0@ >= open[j].1.price.0@,
            Side::Bid => open[furthest(open, side, n)->0].1.price.0@ <= open[j].1.price.0@,
        },
    decreases n,
{
    if n > 0 {
        lemma_furthest(open, side, (n - 1) as nat, j);
        if let Some(i) = furthest(open, side, (n - 1) as nat) {
            lemma_furthest(open, side, (n - 1) as nat, i);
        }
    }
}

/// A full fill quotes one order on each side, the filled side first, and cancels at most
/// one order: on the other side, and none there is further away.
pub proof fn law_fill_adds_a_pair(
    config: LadderReentryConfig,
    ctx: StrategyContext,
    fill: Fill,
    j: int,
)
    requires
        0 <= j < ctx.open_quotes@.len(),
        ctx.open_quotes@[j].1.side == opposite(fill.side),
    ensures
        reentries(config, ctx, fill) matches Some(actions) ==> actions.len() == 3 && (
        actions[0] matches Action::Quote(continuation) && continuation.side == fill.side) && (
        actions[1] matches Action::Quote(reentry) && reentry.side == opposite(fill.side)) && (
        actions[2] matches Action::Cancel(id) && exists|i: int|
            0 <= i < ctx.open_quotes@.len() && (#[trigger] ctx.open_quotes@[i]).0 == id
                && ctx.open_quotes@[i].1.side == opposite(fill.side) && match fill.side {
                Side::Bid => ctx.open_quotes@[i].1.price.0@ >= ctx.open_quotes@[j].1.price.0@,
                Side::Ask => ctx.open_quotes@[i].1.price.0@ <= ctx.open_quotes@[j].1.price.0@,
            }),
{
    let open = ctx.open_quotes@;
    lemma_furthest(open, opposite(fill.side), open.len(), j);
    let i = furthest(open, opposite(fill.side), open.len())->0;
    assert(open[i].1.side == opposite(fill.side));
}

/// For want of margin the position is only ever reduced, and by no more than it is.
pub proof fn law_reduction_reduces(config: LadderReentryConfig, ctx: StrategyContext)
    ensures
        reduction(config, ctx) matches Some(actions) ==> actions.len() <= 1 && forall|i: int|
            0 <= i < actions.len() ==> match #[trigger] actions[i] {
                Action::Quote(order) => order.size.0@ > 0 && order.size.0@ <= absolute(
                    ctx.position.size.0,
                )@ && if ctx.position.size.0@ > 0 {
                    order.side is Ask
                } else {
                    ctx.position.size.0@ < 0 && order.side is Bid
                },
                _ => false,
            },
{
}

proof fn lemma_seed_keeps_to(
    config: LadderReentryConfig,
    symbol: Symbol,
    mid: Decimal,
    n: nat,
)
    ensures
        seed_levels(config, symbol, mid, n) matches Some(quotes) ==> keeps_to(quotes, symbol),
    decreases n,
{
    if n > 0 {
        lemma_seed_keeps_to(config, symbol, mid, (n - 1) as nat);
    }
}

/// No event and no rejection calls for an order in another instrument.
pub proof fn law_quotes_its_instrument(
    state: LadderReentry,
    ctx: StrategyContext,
    event: MarketEvent,
    intent: QuoteIntent,
    reason: Seq<char>,
)
    ensures
        LadderReentry::event_step(state, ctx, event) matches Some((_, actions)) ==> keeps_to(
            actions,
            *ctx.symbol,
        ),
        LadderReentry::rejection_step(state, ctx, intent, reason) matches Some((_, actions))
            ==> keeps_to(actions, *ctx.symbol),
{
    if let MarketEvent::BookUpdate { snapshot } = event {
        if let Some(Some(mid)) = mid_strict(snapshot) {
            lemma_seed_keeps_to(
                state.config,
                *ctx.symbol,
                mid.0,
                state.config.levels_per_side as nat,
            );
        }
    }
}

/// The levels of the seed ladder start `inner_bps` from the mid and lie `step_bps` apart, a bid
/// and an ask at each.
pub proof fn law_seed_levels_are_spaced(
    config: LadderReentryConfig,
    symbol: Symbol,
    mid: Decimal,
    n: nat,
    k: int,
)
    requires
        0 <= k < n,
    ensures
        seed_levels(config, symbol, mid, n) matches Some(quotes) ==> {
            let away = quotient(whole(config.inner_bps + config.step_bps * k), whole(10_000));
            let (bid, ask) = (quotes[2 * k]->Quote_0, quotes[2 * k + 1]->Quote_0);
            &&& quotes.len() == 2 * n
            &&& quotes[2 * k] is Quote && quotes[2 * k + 1] is Quote
            &&& bid.side is Bid && Some(bid.price.0) == times(
                Some(mid),
                minus(Some(whole(1)), away),
            )
            &&& ask.side is Ask && Some(ask.price.0) == times(Some(mid), plus(Some(whole(1)), away))
        },
    decreases n,
{
    law_seed_ladder_is_complete(config, symbol, mid, n);
    law_seed_ladder_is_complete(config, symbol, mid, (n - 1) as nat);
    if k < n - 1 {
        law_seed_levels_are_spaced(config, symbol, mid, (n - 1) as nat, k);
    }
}

/// A full fill is followed by an order `continuation_bps` further on the filled side and by one
/// `reentry_bps` back on the other, both measured from the fill.
pub proof fn law_fill_continues_and_reenters(
    config: LadderReentryConfig,
    ctx: StrategyContext,
    fill: Fill,
)
    ensures
        reentries(config, ctx, fill) matches Some(actions) ==> {
            let on = quotient(whole(config.continuation_bps as int), whole(10_000));
            let back = quotient(whole(config.reentry_bps as int), whole(10_000));
            let (first, second) = (actions[0]->Quote_0, actions[1]->Quote_0);
            &&& actions.len() >= 2 && actions[0] is Quote && actions[1] is Quote
            &&& fill.side is Bid ==> Some(first.price.0) == times(
                Some(fill.price.0),
                minus(Some(whole(1)), on),
            ) && Some(second.price.0) == times(Some(fill.price.0), plus(Some(whole(1)), back))
            &&& fill.side is Ask ==> Some(first.price.0) == times(
                Some(fill.price.0),
                plus(Some(whole(1)), on),
            ) && Some(second.price.0) == times(Some(fill.price.0), minus(Some(whole(1)), back))
        },
{
}

/// A reduction joins the touch of its own side, with at most one order's worth.
pub proof fn law_reduction_joins_the_touch(config: LadderReentryConfig, ctx: StrategyContext)
    ensures
        reduction(config, ctx) matches Some(actions) ==> actions.len() > 0 ==> {
            let order = actions[0]->Quote_0;
            let touch = if ctx.position.size.0@ > 0 {
                ctx.latest_book.asks@[0].price.0
            } else {
                ctx.latest_book.bids@[0].price.0
            };
            let most = quotient(config.notional_per_order, touch);
            &&& order.price.0 == touch
            &&& most is Some && order.size.0@ <= most->0@
            &&& order.size.0@ == absolute(ctx.position.size.0)@ || order.size.0@ == most->0@
        },
        ctx.position.size.0@ == 0 ==> reduction(config, ctx) == Some(Seq::<Action>::empty()),
{
}

/// Partial fills change nothing; for want of margin the position is reduced, and any other
/// rejected order is quoted again `inner_bps` from the mid on its side.
pub proof fn law_rejections_reduce_or_requote(
    state: LadderReentry,
    ctx: StrategyContext,
    fill: Fill,
    intent: QuoteIntent,
    reason: Seq<char>,
    mid: Price,
)
    requires
        mid_strict(*ctx.latest_book) == Some(Some(mid)),
    ensures
        !fill.is_full ==> LadderReentry::event_step(state, ctx, MarketEvent::Fill(fill)) == Some(
            (state, Seq::<Action>::empty()),
        ),
        LadderReentry::rejection_step(state, ctx, intent, reason) matches Some((next, actions)) ==> {
            let short = mentions(reason, "-2019"@) || mentions(reason, "margin insufficient"@);
            let away = quotient(whole(state.config.inner_bps as int), whole(10_000));
            &&& next == state
            &&& short ==> Some(actions) == reduction(state.config, ctx)
            &&& !short ==> actions.len() == 1 && actions[0] is Quote && {
                let order = actions[0]->Quote_0;
                &&& order.side == intent.side
                &&& intent.side is Bid ==> Some(order.price.0) == times(
                    Some(mid.0),
                    minus(Some(whole(1)), away),
                )
                &&& intent.side is Ask ==> Some(order.price.0) == times(
                    Some(mid.0),
                    plus(Some(whole(1)), away),
                )
            }
        },
{
}

/// The seed ladder is laid on the first book with both sides, and once.
pub proof fn law_seeds_once(state: LadderReentry, ctx: StrategyContext, snapshot: Snapshot)
    ensures
        state.seeded ==> LadderReentry::event_step(
            state,
            ctx,
            MarketEvent::BookUpdate { snapshot },
        ) == Some((state, Seq::<Action>::empty())),
        LadderReentry::event_step(state, ctx, MarketEvent::BookUpdate { snapshot }) matches Some(
            (next, actions),
        ) ==> actions.len() > 0 ==> next.seeded && !state.seeded,
{
}

} // verus!
