//! A touch scalper that trades one cycle at a time.
//!
//! While flat it rests a bid and an ask at or near the touch whenever the spread is
//! wide enough. Once one of them fills, only the other is kept, at its original price:
//! that is the take-profit, and the only exit. When it has filled as well, no new pair
//! is opened until the price has moved away from the last fill.

use crate::decimal::{
    absolute, difference, exact_difference, exact_product, exact_sum, lemma_pow10_positive,
    lemma_whole, magnitude, over, pow10, product, sum, times, whole, Decimal,
};
use crate::market::{maker_order, MarketEvent, Price, QuoteId, QuoteIntent, Side, Symbol};
use crate::quoting::{
    lemma_reaches_bps, lemma_reads_exactly, make_post_only_intent, measures_exactly, midpoint,
    reaches_bps, reads_exactly, try_bps_of, try_midpoint,
};
use crate::sizing::{lot_size, try_lot_size};
use crate::strategy::{
    follows, keeps_to, lemma_keeps_to_joined, quotes_on, Action, Strategy, StrategyContext,
};
use vstd::prelude::*;

verus! {

/// Configuration for [`Mantis`].
#[derive(Clone, Copy, Debug)]
pub struct MantisConfig {
    /// Notional per order.
    pub notional_per_order: Decimal,
    /// Venue tick size.
    pub tick_size: Decimal,
    /// Venue lot step size.
    pub step_size: Decimal,
    /// Venue minimum order notional.
    pub min_notional: Decimal,
    /// Least spread at which a pair is opened, in bps.
    pub min_spread_bps: Decimal,
    /// Ticks from the touch: zero joins it, negative is inside, positive outside.
    pub tick_offset: i32,
    /// How far the price must move from the last fill before a new pair is opened, in
    /// ticks.
    pub reopen_distance_ticks: u32,
    /// Most position value in quote currency: no pair is opened of which a leg would be
    /// worth more. `0` means no cap. A cycle holds one fill at most in any case.
    pub max_position_usdt: Decimal,
}

/// One-cycle touch scalper.
#[derive(Clone, Copy, Debug)]
pub struct Mantis {
    /// Settings.
    pub config: MantisConfig,
    /// Bid and ask of the pair that was opened last.
    pub active_pair: Option<(Price, Price)>,
    /// Price of the last fill, while the price has not moved away from it.
    pub cooldown_anchor: Option<Price>,
}

impl View for Mantis {
    type V = Mantis;

    open spec fn view(&self) -> Mantis {
        *self
    }
}

/// The index of the first of `n` wanted orders that is not matched yet and is on this
/// side at this price.
pub open spec fn unmatched_at(
    wanted: Seq<(Side, Price)>,
    matched: Seq<bool>,
    side: Side,
    price: Price,
    n: nat,
) -> Option<int>
    decreases n,
{
    if n == 0 {
        None
    } else {
        match unmatched_at(wanted, matched, side, price, (n - 1) as nat) {
            Some(i) => Some(i),
            None => if !matched[n - 1] && wanted[n - 1].0 == side && wanted[n - 1].1.0@
                == price.0@ {
                Some(n - 1)
            } else {
                None
            },
        }
    }
}

/// Which wanted orders the first `n` resting quotes stand for, and the cancels of the
/// quotes that stand for none.
pub open spec fn kept(
    open: Seq<(QuoteId, QuoteIntent)>,
    wanted: Seq<(Side, Price)>,
    n: nat,
) -> (Seq<bool>, Seq<Action>)
    decreases n,
{
    if n == 0 {
        (Seq::new(wanted.len(), |i: int| false), Seq::empty())
    } else {
        let (matched, cancels) = kept(open, wanted, (n - 1) as nat);
        let (id, intent) = open[n - 1];
        match unmatched_at(wanted, matched, intent.side, intent.price, wanted.len()) {
            Some(i) => (matched.update(i, true), cancels),
            None => (matched, cancels.push(Action::Cancel(id))),
        }
    }
}

/// Quotes for those of the first `n` wanted orders that nothing stands for.
pub open spec fn missing(
    config: MantisConfig,
    symbol: Symbol,
    wanted: Seq<(Side, Price)>,
    matched: Seq<bool>,
    n: nat,
) -> Option<Seq<Action>>
    decreases n,
{
    if n == 0 {
        Some(Seq::empty())
    } else {
        match missing(config, symbol, wanted, matched, (n - 1) as nat) {
            None => None,
            Some(quotes) => if matched[n - 1] {
                Some(quotes)
            } else {
                let (side, price) = wanted[n - 1];
                match lot_size(
                    config.notional_per_order,
                    price.0,
                    config.step_size,
                    config.min_notional,
                ) {
                    None => None,
                    Some(size) => Some(
                        if size@ > 0 {
                            quotes.push(Action::Quote(maker_order(symbol, side, price.0, size)))
                        } else {
                            quotes
                        },
                    ),
                }
            },
        }
    }
}

/// The actions after which exactly the wanted orders rest.
pub open spec fn brought_to(
    config: MantisConfig,
    ctx: StrategyContext,
    wanted: Seq<(Side, Price)>,
) -> Option<Seq<Action>> {
    let (matched, cancels) = kept(ctx.open_quotes@, wanted, ctx.open_quotes@.len());
    match missing(config, *ctx.symbol, wanted, matched, wanted.len()) {
        None => None,
        Some(quotes) => Some(cancels + quotes),
    }
}

/// Prices that the current book gives.
#[derive(Clone, Copy, Debug)]
pub struct Touch {
    /// Best bid.
    pub best_bid: Price,
    /// Best ask.
    pub best_ask: Price,
    /// Where a bid would be opened.
    pub bid_target: Price,
    /// Where an ask would be opened.
    pub ask_target: Price,
    /// Middle of the book.
    pub mid: Decimal,
}

/// The prices for a book.
pub open spec fn touch(config: MantisConfig, best_bid: Price, best_ask: Price) -> Option<Touch> {
    match product(whole(config.tick_offset as int), config.tick_size) {
        None => None,
        Some(off) => match (
            difference(best_bid.0, off),
            sum(best_ask.0, off),
            midpoint(best_bid.0, best_ask.0),
        ) {
            (Some(bid), Some(ask), Some(mid)) => Some(
                Touch {
                    best_bid,
                    best_ask,
                    bid_target: Price(bid),
                    ask_target: Price(ask),
                    mid,
                },
            ),
            _ => None,
        },
    }
}

/// The side that closes a position.
pub open spec fn close_side(pos: Decimal) -> Side {
    if pos@ > 0 {
        Side::Ask
    } else {
        Side::Bid
    }
}

/// The price of the leg that closes a position: its original price, where it is known.
pub open spec fn close_price(state: Mantis, touch: Touch, pos: Decimal) -> Price {
    let (bid, ask) = match state.active_pair {
        Some(pair) => pair,
        None => (touch.bid_target, touch.ask_target),
    };
    if pos@ > 0 {
        ask
    } else {
        bid
    }
}

/// Whether the price is still too close to the last fill.
pub open spec fn cooling_down(state: Mantis, mid: Decimal) -> Option<bool> {
    match state.cooldown_anchor {
        None => Some(false),
        Some(anchor) => match (
            product(whole(state.config.reopen_distance_ticks as int), state.config.tick_size),
            difference(mid, anchor.0),
        ) {
            (Some(dist), Some(moved)) => Some(absolute(moved)@ < dist@),
            _ => None,
        },
    }
}

/// Whether the position that a leg at this price opens stays within its cap.
pub open spec fn leg_within_cap(config: MantisConfig, price: Price) -> Option<bool> {
    if config.max_position_usdt@ <= 0 {
        Some(true)
    } else {
        match lot_size(
            config.notional_per_order,
            price.0,
            config.step_size,
            config.min_notional,
        ) {
            None => None,
            Some(size) => match product(size, price.0) {
                None => None,
                Some(value) => Some(value@ <= config.max_position_usdt@),
            },
        }
    }
}

/// Whether neither leg of a pair would open a position past its cap.
pub open spec fn pair_within_cap(config: MantisConfig, touch: Touch) -> Option<bool> {
    match (leg_within_cap(config, touch.bid_target), leg_within_cap(config, touch.ask_target)) {
        (Some(bid), Some(ask)) => Some(bid && ask),
        _ => None,
    }
}

/// Whether the spread is wide enough, the targets neither lock nor cross the book, and the
/// cap leaves room for either leg.
pub open spec fn may_open(config: MantisConfig, touch: Touch) -> Option<bool> {
    match times(
        over(difference(touch.best_ask.0, touch.best_bid.0), Some(touch.mid)),
        Some(whole(10_000)),
    ) {
        None => None,
        Some(spread_bps) => if spread_bps@ >= config.min_spread_bps@ && touch.bid_target.0@ > 0
            && touch.bid_target.0@ < touch.best_ask.0@ && touch.ask_target.0@ > touch.best_bid.0@
            && touch.bid_target.0@ < touch.ask_target.0@ {
            pair_within_cap(config, touch)
        } else {
            Some(false)
        },
    }
}

/// What a flat strategy does.
pub open spec fn flat_step(state: Mantis, ctx: StrategyContext, touch: Touch) -> Option<
    (Mantis, Seq<Action>),
> {
    match cooling_down(state, touch.mid) {
        None => None,
        Some(true) => match brought_to(state.config, ctx, Seq::empty()) {
            None => None,
            Some(actions) => Some((state, actions)),
        },
        Some(false) => {
            let clear = Mantis { cooldown_anchor: None, ..state };
            match may_open(state.config, touch) {
                None => None,
                Some(false) => match brought_to(state.config, ctx, Seq::empty()) {
                    None => None,
                    Some(actions) => Some((clear, actions)),
                },
                Some(true) => match brought_to(
                    state.config,
                    ctx,
                    seq![(Side::Bid, touch.bid_target), (Side::Ask, touch.ask_target)],
                ) {
                    None => None,
                    Some(actions) => Some(
                        (
                            Mantis {
                                active_pair: Some((touch.bid_target, touch.ask_target)),
                                ..clear
                            },
                            actions,
                        ),
                    ),
                },
            }
        },
    }
}

/// The state and actions that an event calls for.
pub open spec fn mantis_step(state: Mantis, ctx: StrategyContext) -> Option<(Mantis, Seq<Action>)> {
    let bids = ctx.latest_book.bids@;
    let asks = ctx.latest_book.asks@;
    if bids.len() == 0 || asks.len() == 0 || bids[0].price.0@ <= 0 || asks[0].price.0@
        <= bids[0].price.0@ {
        Some((state, Seq::empty()))
    } else {
        let pos = ctx.position.size.0;
        let seen = Mantis {
            cooldown_anchor: if ctx.recent_fills@.len() > 0 {
                Some(ctx.recent_fills@.last().price)
            } else {
                state.cooldown_anchor
            },
            ..state
        };
        match touch(state.config, bids[0].price, asks[0].price) {
            None => None,
            Some(touch) => if pos@ != 0 {
                match brought_to(
                    state.config,
                    ctx,
                    seq![(close_side(pos), close_price(state, touch, pos))],
                ) {
                    None => None,
                    Some(actions) => Some((seen, actions)),
                }
            } else {
                flat_step(seen, ctx, touch)
            },
        }
    }
}

proof fn lemma_unmatched_found(
    wanted: Seq<(Side, Price)>,
    matched: Seq<bool>,
    side: Side,
    price: Price,
    less: nat,
    more: nat,
)
    requires
        less <= more,
        unmatched_at(wanted, matched, side, price, less) is Some,
    ensures
        unmatched_at(wanted, matched, side, price, more) == unmatched_at(
            wanted,
            matched,
            side,
            price,
            less,
        ),
    decreases more,
{
    if less < more {
        lemma_unmatched_found(wanted, matched, side, price, less, (more - 1) as nat);
    }
}

proof fn lemma_missing_fails(
    config: MantisConfig,
    symbol: Symbol,
    wanted: Seq<(Side, Price)>,
    matched: Seq<bool>,
    less: nat,
    more: nat,
)
    requires
        less <= more,
        missing(config, symbol, wanted, matched, less) is None,
    ensures
        missing(config, symbol, wanted, matched, more) is None,
    decreases more,
{
    if less < more {
        lemma_missing_fails(config, symbol, wanted, matched, less, (more - 1) as nat);
    }
}

fn find_unmatched(wanted: &Vec<(Side, Price)>, matched: &Vec<bool>, side: Side, price: Price)
    -> (result: Option<usize>)
    requires
        matched@.len() == wanted@.len(),
    ensures
        match result {
            Some(i) => i < wanted@.len() && unmatched_at(
                wanted@,
                matched@,
                side,
                price,
                wanted@.len(),
            ) == Some(i as int),
            None => unmatched_at(wanted@, matched@, side, price, wanted@.len()) is None,
        },
{
    let mut i: usize = 0;
    while i < wanted.len()
        invariant
            i <= wanted@.len(),
            matched@.len() == wanted@.len(),
            unmatched_at(wanted@, matched@, side, price, i as nat) is None,
        decreases wanted@.len() - i,
    {
        if !matched[i] && wanted[i].0 == side && wanted[i].1.0.equals(price.0) {
            proof {
                lemma_unmatched_found(
                    wanted@,
                    matched@,
                    side,
                    price,
                    (i + 1) as nat,
                    wanted@.len(),
                );
            }
            return Some(i);
        }
        i = i + 1;
    }
    None
}

impl Mantis {
    fn reconcile(&self, ctx: &StrategyContext<'_>, wanted: &Vec<(Side, Price)>) -> (result: Option<
        Vec<Action>,
    >)
        ensures
            match brought_to(self.config, *ctx, wanted@) {
                Some(actions) => result is Some && result->0@ =~= actions,
                None => result is None,
            },
    {
        let open = ctx.open_quotes;
        let mut actions: Vec<Action> = Vec::new();
        let mut matched: Vec<bool> = Vec::new();
        let mut k: usize = 0;
        while k < wanted.len()
            invariant
                k <= wanted@.len(),
                matched@ =~= Seq::new(k as nat, |i: int| false),
            decreases wanted@.len() - k,
        {
            matched.push(false);
            k = k + 1;
        }
        let mut n: usize = 0;
        while n < open.len()
            invariant
                n <= open@.len(),
                open@ == ctx.open_quotes@,
                matched@.len() == wanted@.len(),
                matched@ =~= kept(open@, wanted@, n as nat).0,
                actions@ =~= kept(open@, wanted@, n as nat).1,
            decreases open@.len() - n,
        {
            let intent = &open[n].1;
            match find_unmatched(wanted, &matched, intent.side, intent.price) {
                Some(i) => {
                    matched.set(i, true);
                },
                None => {
                    actions.push(Action::Cancel(open[n].0));
                },
            }
            n = n + 1;
        }
        let ghost cancels = actions@;
        let ghost config = self.config;
        let mut i: usize = 0;
        while i < wanted.len()
            invariant
                i <= wanted@.len(),
                config == self.config,
                matched@.len() == wanted@.len(),
                missing(config, *ctx.symbol, wanted@, matched@, i as nat) is Some,
                actions@ =~= cancels + missing(
                    config,
                    *ctx.symbol,
                    wanted@,
                    matched@,
                    i as nat,
                )->0,
                brought_to(config, *ctx, wanted@) is Some <==> missing(
                    config,
                    *ctx.symbol,
                    wanted@,
                    matched@,
                    wanted@.len(),
                ) is Some,
            decreases wanted@.len() - i,
        {
            proof {
                if missing(config, *ctx.symbol, wanted@, matched@, (i + 1) as nat) is None {
                    lemma_missing_fails(
                        config,
                        *ctx.symbol,
                        wanted@,
                        matched@,
                        (i + 1) as nat,
                        wanted@.len(),
                    );
                }
            }
            if !matched[i] {
                let (side, price) = wanted[i];
                let size = try_lot_size(
                    self.config.notional_per_order,
                    price,
                    self.config.step_size,
                    self.config.min_notional,
                )?;
                if size.0.is_positive() {
                    actions.push(
                        Action::Quote(make_post_only_intent(ctx.symbol, side, price, size)),
                    );
                }
            }
            i = i + 1;
        }
        Some(actions)
    }

    fn try_touch(&self, best_bid: Price, best_ask: Price) -> (result: Option<Touch>)
        ensures
            result == touch(self.config, best_bid, best_ask),
            result matches Some(touch) ==> {
                let off = product(whole(self.config.tick_offset as int), self.config.tick_size)->0;
                &&& best_bid.0@ >= 0 && self.config.tick_size@ >= 0 && self.config.tick_offset >= 0
                    ==> touch.bid_target.0@ <= best_bid.0@
                &&& best_ask.0@ >= 0 && self.config.tick_size@ >= 0 && self.config.tick_offset >= 0
                    ==> touch.ask_target.0@ >= best_ask.0@
                &&& exact_product(whole(self.config.tick_offset as int), self.config.tick_size)
                    && exact_difference(best_bid.0, off) && exact_sum(best_ask.0, off) ==> {
                    &&& touch.bid_target.0@ == best_bid.0@ - self.config.tick_offset
                        * self.config.tick_size@
                    &&& touch.ask_target.0@ == best_ask.0@ + self.config.tick_offset
                        * self.config.tick_size@
                }
            },
    {
        let off = Decimal::whole(self.config.tick_offset as i64).checked_mul(
            self.config.tick_size,
        )?;
        proof {
            let (n, p, d, t) = (
                self.config.tick_offset as int,
                pow10(28),
                off@,
                self.config.tick_size@,
            );
            lemma_whole(n);
            lemma_pow10_positive(28);
            assert(n >= 0 ==> n * p >= 0) by (nonlinear_arith)
                requires
                    p >= 1,
            ;
            assert(d * p == (n * p) * t ==> d == n * t) by (nonlinear_arith)
                requires
                    p >= 1,
            ;
        }
        let bid_target = Price(best_bid.0.checked_sub(off)?);
        let ask_target = Price(best_ask.0.checked_add(off)?);
        let mid = try_midpoint(best_bid.0, best_ask.0)?;
        Some(Touch { best_bid, best_ask, bid_target, ask_target, mid })
    }

    fn is_cooling_down(&self, mid: Decimal) -> (result: Option<bool>)
        ensures
            result == cooling_down(*self, mid),
            self.cooldown_anchor is None ==> result == Some(false),
            self.cooldown_anchor matches Some(anchor) ==> exact_product(
                whole(self.config.reopen_distance_ticks as int),
                self.config.tick_size,
            ) && exact_difference(mid, anchor.0) ==> result == Some(
                magnitude(mid@ - anchor.0@) < self.config.reopen_distance_ticks
                    * self.config.tick_size@,
            ),
    {
        match self.cooldown_anchor {
            None => Some(false),
            Some(anchor) => {
                let dist = Decimal::whole(self.config.reopen_distance_ticks as i64).checked_mul(
                    self.config.tick_size,
                )?;
                proof {
                    let (n, p, d, t) = (
                        self.config.reopen_distance_ticks as int,
                        pow10(28),
                        dist@,
                        self.config.tick_size@,
                    );
                    lemma_whole(n);
                    lemma_pow10_positive(28);
                    assert(d * p == (n * p) * t ==> d == n * t) by (nonlinear_arith)
                        requires
                            p >= 1,
                    ;
                }
                Some(mid.checked_sub(anchor.0)?.abs().is_less(dist))
            },
        }
    }

    fn is_leg_within_cap(&self, price: Price) -> (result: Option<bool>)
        ensures
            result == leg_within_cap(self.config, price),
    {
        if !self.config.max_position_usdt.is_positive() {
            return Some(true);
        }
        let size = try_lot_size(
            self.config.notional_per_order,
            price,
            self.config.step_size,
            self.config.min_notional,
        )?;
        Some(size.0.checked_mul(price.0)?.is_at_most(self.config.max_position_usdt))
    }

    fn can_open(&self, touch: &Touch) -> (result: Option<bool>)
        ensures
            result == may_open(self.config, *touch),
            result is Some && touch.mid@ > 0 && exact_difference(
                touch.best_ask.0,
                touch.best_bid.0,
            ) && measures_exactly(
                difference(touch.best_ask.0, touch.best_bid.0)->0,
                touch.mid,
            ) ==> {
                let clear = 0 < touch.bid_target.0@ < touch.best_ask.0@ && touch.ask_target.0@
                    > touch.best_bid.0@ && touch.bid_target.0@ < touch.ask_target.0@;
                let roomy = pair_within_cap(self.config, *touch) == Some(true);
                &&& result == Some(true) ==> clear && roomy
                &&& result == Some(true) || (clear && roomy) ==> reaches_bps(
                    touch.best_ask.0@ - touch.best_bid.0@,
                    touch.mid@,
                    self.config.min_spread_bps@,
                    result->0,
                )
            },
    {
        let spread = touch.best_ask.0.checked_sub(touch.best_bid.0)?;
        let spread_bps = try_bps_of(spread, touch.mid)?;
        proof {
            if touch.mid@ > 0 && measures_exactly(spread, touch.mid) {
                lemma_reaches_bps(
                    spread@,
                    touch.mid@,
                    spread_bps@,
                    self.config.min_spread_bps@,
                );
            }
        }
        if spread_bps.is_less(self.config.min_spread_bps) || !touch.bid_target.0.is_positive()
            || touch.bid_target.0.is_at_least(touch.best_ask.0) || touch.ask_target.0.is_at_most(
            touch.best_bid.0,
        ) || touch.bid_target.0.is_at_least(touch.ask_target.0) {
            return Some(false);
        }
        let bid = self.is_leg_within_cap(touch.bid_target)?;
        let ask = self.is_leg_within_cap(touch.ask_target)?;
        Some(bid && ask)
    }

    fn step_flat(&mut self, ctx: &StrategyContext<'_>, touch: &Touch) -> (result: Option<
        Vec<Action>,
    >)
        ensures
            follows(flat_step(*old(self), *ctx, *touch), result, *final(self)),
    {
        if self.is_cooling_down(touch.mid)? {
            return self.reconcile(ctx, &Vec::new());
        }
        self.cooldown_anchor = None;
        if !self.can_open(touch)? {
            return self.reconcile(ctx, &Vec::new());
        }
        self.active_pair = Some((touch.bid_target, touch.ask_target));
        self.reconcile(ctx, &vec![(Side::Bid, touch.bid_target), (Side::Ask, touch.ask_target)])
    }
}

impl Strategy for Mantis {
    type Config = MantisConfig;

    open spec fn initial(config: MantisConfig) -> Option<Mantis> {
        Some(Mantis { config, active_pair: None, cooldown_anchor: None })
    }

    open spec fn event_step(state: Mantis, ctx: StrategyContext, event: MarketEvent) -> Option<
        (Mantis, Seq<Action>),
    > {
        mantis_step(state, ctx)
    }

    open spec fn rejection_step(
        state: Mantis,
        ctx: StrategyContext,
        intent: QuoteIntent,
        reason: Seq<char>,
    ) -> Option<(Mantis, Seq<Action>)> {
        Some((state, Seq::empty()))
    }

    fn try_new(config: MantisConfig) -> (result: Option<Mantis>) {
        Some(Mantis { config, active_pair: None, cooldown_anchor: None })
    }

    fn name(&self) -> (result: &str)
        ensures
            result@ == "mantis"@,
    {
        "mantis"
    }

    fn try_on_event(&mut self, ctx: &StrategyContext<'_>, event: &MarketEvent) -> (result: Option<
        Vec<Action>,
    >) {
        if ctx.latest_book.bids.len() == 0 || ctx.latest_book.asks.len() == 0 {
            return Some(Vec::new());
        }
        let best_bid = ctx.latest_book.bids[0].price;
        let best_ask = ctx.latest_book.asks[0].price;
        if !best_bid.0.is_positive() || best_ask.0.is_at_most(best_bid.0) {
            return Some(Vec::new());
        }
        if ctx.recent_fills.len() > 0 {
            self.cooldown_anchor = Some(ctx.recent_fills[ctx.recent_fills.len() - 1].price);
        }
        let touch = self.try_touch(best_bid, best_ask)?;
        let pos = ctx.position.size.0;
        if pos.is_zero() {
            return self.step_flat(ctx, &touch);
        }
        let (bid, ask) = match self.active_pair {
            Some(pair) => pair,
            None => (touch.bid_target, touch.ask_target),
        };
        let close = if pos.is_positive() {
            (Side::Ask, ask)
        } else {
            (Side::Bid, bid)
        };
        let wanted = vec![close];
        assert(wanted@ =~= seq![close]);
        self.reconcile(ctx, &wanted)
    }

    fn try_on_quote_rejected(
        &mut self,
        ctx: &StrategyContext<'_>,
        intent: &QuoteIntent,
        reason: &str,
    ) -> (result: Option<Vec<Action>>) {
        Some(Vec::new())
    }

    fn on_notional_updated(
        &mut self,
        ctx: &StrategyContext<'_>,
        notional_per_order: Decimal,
    ) -> (result: Vec<Action>)
        ensures
            result@.len() == 0,
            *final(self) == (Mantis {
                config: if notional_per_order@ > 0 {
                    MantisConfig { notional_per_order, ..old(self).config }
                } else {
                    old(self).config
                },
                ..*old(self)
            }),
    {
        if notional_per_order.is_positive() {
            self.config.notional_per_order = notional_per_order;
        }
        Vec::new()
    }

    fn on_max_position_updated(
        &mut self,
        ctx: &StrategyContext<'_>,
        max_position_usdt: Decimal,
    ) -> (result: Vec<Action>)
        ensures
            result@.len() == 0,
            *final(self) == (Mantis {
                config: if max_position_usdt@ > 0 {
                    MantisConfig { max_position_usdt, ..old(self).config }
                } else {
                    old(self).config
                },
                ..*old(self)
            }),
    {
        if max_position_usdt.is_positive() {
            self.config.max_position_usdt = max_position_usdt;
        }
        Vec::new()
    }
}

proof fn lemma_kept_are_cancels(
    open: Seq<(QuoteId, QuoteIntent)>,
    wanted: Seq<(Side, Price)>,
    n: nat,
)
    ensures
        forall|i: int|
            0 <= i < kept(open, wanted, n).1.len() ==> (#[trigger] kept(open, wanted, n).1[i])
                is Cancel,
    decreases n,
{
    if n > 0 {
        lemma_kept_are_cancels(open, wanted, (n - 1) as nat);
    }
}

/// Whether an action cancels, or quotes one of the wanted orders.
pub open spec fn serves(wanted: Seq<(Side, Price)>, action: Action) -> bool {
    match action {
        Action::Cancel(_) => true,
        Action::Quote(intent) => wanted.contains((intent.side, intent.price)),
        _ => false,
    }
}

proof fn lemma_missing_serve(
    config: MantisConfig,
    symbol: Symbol,
    wanted: Seq<(Side, Price)>,
    matched: Seq<bool>,
    n: nat,
)
    requires
        n <= wanted.len(),
    ensures
        missing(config, symbol, wanted, matched, n) matches Some(quotes) ==> forall|i: int|
            0 <= i < quotes.len() ==> serves(wanted, #[trigger] quotes[i]),
    decreases n,
{
    if n > 0 {
        lemma_missing_serve(config, symbol, wanted, matched, (n - 1) as nat);
        assert(wanted.contains(wanted[n - 1]));
    }
}

/// Nothing but the wanted orders is quoted.
pub proof fn law_only_wanted_orders_are_quoted(
    config: MantisConfig,
    ctx: StrategyContext,
    wanted: Seq<(Side, Price)>,
)
    ensures
        brought_to(config, ctx, wanted) matches Some(actions) ==> forall|i: int|
            0 <= i < actions.len() ==> serves(wanted, #[trigger] actions[i]),
{
    let open = ctx.open_quotes@;
    let (matched, cancels) = kept(open, wanted, open.len());
    lemma_kept_are_cancels(open, wanted, open.len());
    lemma_missing_serve(config, *ctx.symbol, wanted, matched, wanted.len());
}

/// While a position is held, only the leg that closes it is quoted, and at the price it
/// had when the pair was opened.
pub proof fn law_holding_keeps_the_close_leg(
    state: Mantis,
    ctx: StrategyContext,
    event: MarketEvent,
    pair: (Price, Price),
)
    requires
        ctx.position.size.0@ != 0,
        state.active_pair == Some(pair),
    ensures
        Mantis::event_step(state, ctx, event) matches Some((next, actions)) ==> {
            &&& next.active_pair == state.active_pair
            &&& forall|i: int|
                0 <= i < actions.len() ==> match #[trigger] actions[i] {
                    Action::Cancel(_) => true,
                    Action::Quote(intent) => if ctx.position.size.0@ > 0 {
                        intent.side is Ask && intent.price == pair.1
                    } else {
                        intent.side is Bid && intent.price == pair.0
                    },
                    _ => false,
                }
        },
{
    let pos = ctx.position.size.0;
    let close = (
        close_side(pos),
        if pos@ > 0 {
            pair.1
        } else {
            pair.0
        },
    );
    law_only_wanted_orders_are_quoted(state.config, ctx, seq![close]);
    assert(forall|order: (Side, Price)| seq![close].contains(order) ==> order == close);
}

/// A flat strategy opens nothing while the price is still close to the last fill.
pub proof fn law_cooldown_opens_nothing(state: Mantis, ctx: StrategyContext, touch: Touch)
    requires
        cooling_down(state, touch.mid) == Some(true),
    ensures
        flat_step(state, ctx, touch) matches Some((next, actions)) ==> next == state && !quotes_on(
            actions,
            Side::Bid,
        ) && !quotes_on(actions, Side::Ask),
{
    law_only_wanted_orders_are_quoted(state.config, ctx, Seq::empty());
}

/// A pair is opened only around a gap that neither locks nor crosses the book.
pub proof fn law_opened_pair_does_not_cross(state: Mantis, ctx: StrategyContext, touch: Touch)
    ensures
        flat_step(state, ctx, touch) matches Some((next, _)) ==> (next.active_pair
            != state.active_pair ==> next.active_pair is Some && {
            let (bid, ask) = next.active_pair->0;
            0 < bid.0@ && bid.0@ < ask.0@ && bid.0@ < touch.best_ask.0@ && touch.best_bid.0@
                < ask.0@
        }),
{
}

proof fn lemma_missing_within_cap(
    config: MantisConfig,
    symbol: Symbol,
    wanted: Seq<(Side, Price)>,
    matched: Seq<bool>,
    n: nat,
)
    requires
        n <= wanted.len(),
        config.max_position_usdt@ > 0,
        forall|i: int|
            0 <= i < wanted.len() ==> leg_within_cap(config, (#[trigger] wanted[i]).1) == Some(
                true,
            ),
    ensures
        missing(config, symbol, wanted, matched, n) matches Some(quotes) ==> forall|i: int|
            0 <= i < quotes.len() ==> (#[trigger] quotes[i] matches Action::Quote(order) && product(
                order.size.0,
                order.price.0,
            ) is Some && product(order.size.0, order.price.0)->0@ <= config.max_position_usdt@),
    decreases n,
{
    if n > 0 {
        lemma_missing_within_cap(config, symbol, wanted, matched, (n - 1) as nat);
        assert(leg_within_cap(config, wanted[n - 1].1) == Some(true));
    }
}

/// A flat strategy with a cap quotes nothing whose fill would be worth more than the cap.
pub proof fn law_opened_legs_stay_within_the_cap(state: Mantis, ctx: StrategyContext, touch: Touch)
    requires
        state.config.max_position_usdt@ > 0,
    ensures
        flat_step(state, ctx, touch) matches Some((_, actions)) ==> forall|i: int|
            0 <= i < actions.len() ==> (#[trigger] actions[i] matches Action::Quote(order)
                ==> product(order.size.0, order.price.0) is Some && product(
                order.size.0,
                order.price.0,
            )->0@ <= state.config.max_position_usdt@),
{
    let config = state.config;
    let open = ctx.open_quotes@;
    let none = Seq::<(Side, Price)>::empty();
    law_only_wanted_orders_are_quoted(config, ctx, none);
    if may_open(config, touch) == Some(true) {
        let pair = seq![(Side::Bid, touch.bid_target), (Side::Ask, touch.ask_target)];
        let (matched, cancels) = kept(open, pair, open.len());
        lemma_kept_are_cancels(open, pair, open.len());
        lemma_missing_within_cap(config, *ctx.symbol, pair, matched, pair.len());
        if let Some(quotes) = missing(config, *ctx.symbol, pair, matched, pair.len()) {
            let actions = cancels + quotes;
            assert forall|i: int| 0 <= i < actions.len() implies (
            #[trigger] actions[i] matches Action::Quote(order) ==> product(
                order.size.0,
                order.price.0,
            ) is Some && product(order.size.0, order.price.0)->0@
                <= config.max_position_usdt@) by {
                if i < cancels.len() {
                    assert(actions[i] == cancels[i]);
                } else {
                    assert(actions[i] == quotes[i - cancels.len()]);
                }
            }
        }
    }
}

proof fn lemma_kept_keeps_to(
    open: Seq<(QuoteId, QuoteIntent)>,
    wanted: Seq<(Side, Price)>,
    n: nat,
    symbol: Symbol,
)
    ensures
        keeps_to(kept(open, wanted, n).1, symbol),
    decreases n,
{
    if n > 0 {
        lemma_kept_keeps_to(open, wanted, (n - 1) as nat, symbol);
    }
}

proof fn lemma_missing_keeps_to(
    config: MantisConfig,
    symbol: Symbol,
    wanted: Seq<(Side, Price)>,
    matched: Seq<bool>,
    n: nat,
)
    ensures
        missing(config, symbol, wanted, matched, n) matches Some(quotes) ==> keeps_to(
            quotes,
            symbol,
        ),
    decreases n,
{
    if n > 0 {
        lemma_missing_keeps_to(config, symbol, wanted, matched, (n - 1) as nat);
    }
}

proof fn lemma_brought_keeps_to(
    config: MantisConfig,
    ctx: StrategyContext,
    wanted: Seq<(Side, Price)>,
)
    ensures
        brought_to(config, ctx, wanted) matches Some(actions) ==> keeps_to(actions, *ctx.symbol),
{
    let open = ctx.open_quotes@;
    let (matched, cancels) = kept(open, wanted, open.len());
    lemma_kept_keeps_to(open, wanted, open.len(), *ctx.symbol);
    lemma_missing_keeps_to(config, *ctx.symbol, wanted, matched, wanted.len());
    if let Some(quotes) = missing(config, *ctx.symbol, wanted, matched, wanted.len()) {
        lemma_keeps_to_joined(cancels, quotes, *ctx.symbol);
    }
}

/// No event and no rejection calls for an order in another instrument.
pub proof fn law_quotes_its_instrument(
    state: Mantis,
    ctx: StrategyContext,
    event: MarketEvent,
    intent: QuoteIntent,
    reason: Seq<char>,
)
    ensures
        Mantis::event_step(state, ctx, event) matches Some((_, actions)) ==> keeps_to(
            actions,
            *ctx.symbol,
        ),
        Mantis::rejection_step(state, ctx, intent, reason) matches Some((_, actions)) ==> keeps_to(
            actions,
            *ctx.symbol,
        ),
{
    assert forall|wanted: Seq<(Side, Price)>| #[trigger]
        brought_to(state.config, ctx, wanted) matches Some(actions) implies keeps_to(
        brought_to(state.config, ctx, wanted)->0,
        *ctx.symbol,
    ) by {
        lemma_brought_keeps_to(state.config, ctx, wanted);
    }
}

/// The last fill anchors the cooldown, and a position waits for its own leg to close it.
pub proof fn law_fills_anchor_the_cooldown(state: Mantis, ctx: StrategyContext, event: MarketEvent)
    requires
        ctx.recent_fills@.len() > 0,
        ctx.position.size.0@ != 0,
        ctx.latest_book.bids@.len() > 0,
        ctx.latest_book.asks@.len() > 0,
        0 < ctx.latest_book.bids@[0].price.0@ < ctx.latest_book.asks@[0].price.0@,
    ensures
        Mantis::event_step(state, ctx, event) matches Some((next, _)) ==> next.cooldown_anchor
            == Some(ctx.recent_fills@.last().price),
{
}

/// A resting quote that no wanted order asks for is cancelled.
pub proof fn law_unwanted_quotes_are_cancelled(
    open: Seq<(QuoteId, QuoteIntent)>,
    wanted: Seq<(Side, Price)>,
    n: nat,
    j: int,
)
    requires
        0 <= j < n <= open.len(),
        forall|i: int|
            0 <= i < wanted.len() ==> (#[trigger] wanted[i]).0 != open[j].1.side || wanted[i].1.0@
                != open[j].1.price.0@,
    ensures
        kept(open, wanted, n).1.contains(Action::Cancel(open[j].0)),
    decreases n,
{
    let (matched, cancels) = kept(open, wanted, (n - 1) as nat);
    let (id, intent) = open[n - 1];
    if j == n - 1 {
        lemma_no_match(wanted, matched, intent.side, intent.price, wanted.len());
        assert(cancels.push(Action::Cancel(id)).last() == Action::Cancel(id));
    } else {
        law_unwanted_quotes_are_cancelled(open, wanted, (n - 1) as nat, j);
        let k = choose|k: int| 0 <= k < cancels.len() && cancels[k] == Action::Cancel(open[j].0);
        assert(cancels.push(Action::Cancel(id))[k] == Action::Cancel(open[j].0));
    }
}

proof fn lemma_no_match(
    wanted: Seq<(Side, Price)>,
    matched: Seq<bool>,
    side: Side,
    price: Price,
    n: nat,
)
    requires
        n <= wanted.len(),
        forall|i: int|
            0 <= i < wanted.len() ==> (#[trigger] wanted[i]).0 != side || wanted[i].1.0@
                != price.0@,
    ensures
        unmatched_at(wanted, matched, side, price, n) is None,
    decreases n,
{
    if n > 0 {
        lemma_no_match(wanted, matched, side, price, (n - 1) as nat);
        assert(wanted[n - 1] == wanted[n - 1]);
    }
}

/// Where exactly the wanted pair rests, nothing is done.
pub proof fn law_standing_pair_is_left_alone(
    config: MantisConfig,
    ctx: StrategyContext,
    bid: Price,
    ask: Price,
)
    requires
        ctx.open_quotes@.len() == 2,
        ctx.open_quotes@[0].1.side is Bid,
        ctx.open_quotes@[0].1.price.0@ == bid.0@,
        ctx.open_quotes@[1].1.side is Ask,
        ctx.open_quotes@[1].1.price.0@ == ask.0@,
    ensures
        brought_to(config, ctx, seq![(Side::Bid, bid), (Side::Ask, ask)]) == Some(
            Seq::<Action>::empty(),
        ),
{
    let open = ctx.open_quotes@;
    let wanted = seq![(Side::Bid, bid), (Side::Ask, ask)];
    reveal_with_fuel(kept, 3);
    reveal_with_fuel(unmatched_at, 3);
    reveal_with_fuel(missing, 3);
    assert(kept(open, wanted, 1).0 =~= seq![true, false]);
    assert(kept(open, wanted, 2).0 =~= seq![true, true]);
    assert(kept(open, wanted, 2).1 =~= Seq::<Action>::empty());
}

/// A pair is opened only where the spread reaches the least one asked for.
pub proof fn law_pairs_need_a_wide_spread(
    config: MantisConfig,
    touch: Touch,
    spread: Decimal,
    spread_bps: Decimal,
)
    requires
        difference(touch.best_ask.0, touch.best_bid.0) == Some(spread),
        spread@ == touch.best_ask.0@ - touch.best_bid.0@,
        reads_exactly(spread, touch.mid, spread_bps),
    ensures
        ({
            let wide = (touch.best_ask.0@ - touch.best_bid.0@) * 10_000 * pow10(28)
                >= config.min_spread_bps@ * touch.mid@;
            &&& may_open(config, touch) == Some(true) ==> wide
            &&& !wide ==> may_open(config, touch) == Some(false)
            &&& wide && 0 < touch.bid_target.0@ < touch.best_ask.0@ && touch.best_bid.0@
                < touch.ask_target.0@ && touch.bid_target.0@ < touch.ask_target.0@ ==> may_open(
                config,
                touch,
            ) == pair_within_cap(config, touch)
        }),
{
    lemma_reads_exactly(spread, touch.mid, spread_bps, config.min_spread_bps@);
}

/// After a fill nothing is opened until the mid has left the fill by the reopening distance.
pub proof fn law_reopens_at_a_distance(
    state: Mantis,
    anchor: Price,
    mid: Decimal,
    distance: Decimal,
    moved: Decimal,
)
    requires
        state.cooldown_anchor == Some(anchor),
        product(
            whole(state.config.reopen_distance_ticks as int),
            state.config.tick_size,
        ) == Some(distance),
        difference(mid, anchor.0) == Some(moved),
    ensures
        cooling_down(state, mid) == Some(absolute(moved)@ < distance@),
        cooling_down(Mantis { cooldown_anchor: None, ..state }, mid) == Some(false),
{
}

/// The targets stand the offset outside the touches.
pub proof fn law_targets_are_outside_the_touches(
    config: MantisConfig,
    best_bid: Price,
    best_ask: Price,
    off: Decimal,
)
    requires
        product(whole(config.tick_offset as int), config.tick_size) == Some(off),
    ensures
        touch(config, best_bid, best_ask) matches Some(found) ==> {
            &&& difference(best_bid.0, off) == Some(found.bid_target.0)
            &&& sum(best_ask.0, off) == Some(found.ask_target.0)
            &&& found.best_bid == best_bid && found.best_ask == best_ask
        },
{
}

/// Without a known pair a position is closed at the target of the side against it.
pub proof fn law_close_without_a_pair(state: Mantis, touch: Touch, pos: Decimal)
    requires
        state.active_pair is None,
    ensures
        pos@ > 0 ==> close_side(pos) is Ask && close_price(state, touch, pos) == touch.ask_target,
        pos@ < 0 ==> close_side(pos) is Bid && close_price(state, touch, pos) == touch.bid_target,
{
}

/// Every order that is quoted is in the size that its notional buys at its price.
pub proof fn law_quotes_are_sized_at_their_price(
    config: MantisConfig,
    symbol: Symbol,
    wanted: Seq<(Side, Price)>,
    matched: Seq<bool>,
    n: nat,
    i: int,
)
    requires
        n <= wanted.len(),
    ensures
        missing(config, symbol, wanted, matched, n) matches Some(quotes) ==> 0 <= i < quotes.len()
            ==> {
            let order = quotes[i]->Quote_0;
            &&& quotes[i] is Quote && order.size.0@ > 0
            &&& lot_size(
                config.notional_per_order,
                order.price.0,
                config.step_size,
                config.min_notional,
            ) == Some(order.size.0)
        },
    decreases n,
{
    if n > 0 {
        law_quotes_are_sized_at_their_price(config, symbol, wanted, matched, (n - 1) as nat, i);
    }
}

} // verus!
