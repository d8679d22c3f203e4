//! A rolling ladder of fixed-notional orders.
//!
//! The same number of bids and asks rests on evenly spaced levels around the mid. A
//! fill rolls the ladder one step: a take-profit is placed on the other side of the
//! fill, the filled side is extended outward, and the outermost order on the other
//! side is dropped, so that the counts stay what they are. Orders that survive keep
//! their place in the queue.
//!
//! After the first placement the strategy acts on its own fills only.

use crate::decimal::{absolute, difference, minus, plus, quotient, times, whole, Decimal};
use crate::market::{
    maker_order, opposite, MarketEvent, Price, QuoteId, QuoteIntent, Side, Size, Snapshot, Symbol,
};
use crate::quoting::{
    bps_fraction, compute_mid_strict, make_post_only_intent, mid_strict, price_away,
    try_bps_fraction, try_price_away,
};
use crate::strategy::{follows, keeps_to, lemma_keeps_to_joined, Action, Strategy, StrategyContext};
use vstd::prelude::*;

verus! {

/// Configuration for [`LayeredGrid`].
#[derive(Clone, Copy, Debug)]
pub struct LayeredGridConfig {
    /// Notional per order, in quote currency.
    pub notional_per_order: Decimal,
    /// Orders per side.
    pub levels_per_side: u32,
    /// Distance of the first level from the mid, of each level from the next, and of
    /// the take-profit from a fill, in bps.
    pub inner_bps: u32,
}

/// Layered-grid strategy.
pub struct LayeredGrid {
    /// Settings.
    pub config: LayeredGridConfig,
    /// Whether the ladder has been placed.
    pub placed: bool,
    /// The orders believed to rest.
    pub orders: Vec<(Side, Price)>,
}

/// Mathematical content of a [`LayeredGrid`].
#[verifier::ext_equal]
pub struct LayeredGridState {
    /// Settings.
    pub config: LayeredGridConfig,
    /// Whether the ladder has been placed.
    pub placed: bool,
    /// The orders believed to rest.
    pub orders: Seq<(Side, Price)>,
}

impl View for LayeredGrid {
    type V = LayeredGridState;

    open spec fn view(&self) -> LayeredGridState {
        LayeredGridState { config: self.config, placed: self.placed, orders: self.orders@ }
    }
}

/// The order of the configured notional at a price.
pub open spec fn notional_quote(
    config: LayeredGridConfig,
    symbol: Symbol,
    side: Side,
    price: Decimal,
) -> Option<Action> {
    match quotient(config.notional_per_order, price) {
        None => None,
        Some(size) => Some(Action::Quote(maker_order(symbol, side, price, size))),
    }
}

/// Quotes and mirror entries of a ladder.
#[verifier::ext_equal]
pub struct Ladder {
    /// The quotes.
    pub quotes: Seq<Action>,
    /// What will rest.
    pub orders: Seq<(Side, Price)>,
}

/// One level of the ladder: a bid and an ask `(k + 1) x inner_bps` from the mid.
pub open spec fn ladder_level(
    config: LayeredGridConfig,
    symbol: Symbol,
    mid: Decimal,
    k: int,
) -> Option<Ladder> {
    let bps = config.inner_bps * (k + 1);
    if bps > u32::MAX {
        None
    } else {
        let away = bps_fraction(bps);
        match (price_away(mid, Side::Bid, away), price_away(mid, Side::Ask, away)) {
            (Some(bid), Some(ask)) => match (
                notional_quote(config, symbol, Side::Bid, bid),
                notional_quote(config, symbol, Side::Ask, ask),
            ) {
                (Some(buy), Some(sell)) => Some(
                    Ladder {
                        quotes: seq![buy, sell],
                        orders: seq![(Side::Bid, Price(bid)), (Side::Ask, Price(ask))],
                    },
                ),
                _ => None,
            },
            _ => None,
        }
    }
}

/// The first `n` levels of the ladder.
pub open spec fn ladder(
    config: LayeredGridConfig,
    symbol: Symbol,
    mid: Decimal,
    n: nat,
) -> Option<Ladder>
    decreases n,
{
    if n == 0 {
        Some(Ladder { quotes: Seq::empty(), orders: Seq::empty() })
    } else {
        match ladder(config, symbol, mid, (n - 1) as nat) {
            None => None,
            Some(done) => match ladder_level(config, symbol, mid, n - 1) {
                None => None,
                Some(level) => Some(
                    Ladder {
                        quotes: done.quotes + level.quotes,
                        orders: done.orders + level.orders,
                    },
                ),
            },
        }
    }
}

/// Cancels of all these quotes.
pub open spec fn cancel_each(open: Seq<(QuoteId, QuoteIntent)>) -> Seq<Action> {
    Seq::new(open.len(), |i: int| Action::Cancel(open[i].0))
}

/// The index of the first of `n` orders on this side at this price.
pub open spec fn exact_order(
    orders: Seq<(Side, Price)>,
    side: Side,
    price: Decimal,
    n: nat,
) -> Option<int>
    decreases n,
{
    if n == 0 {
        None
    } else {
        match exact_order(orders, side, price, (n - 1) as nat) {
            Some(i) => Some(i),
            None => if orders[n - 1].0 == side && orders[n - 1].1.0@ == price@ {
                Some(n - 1)
            } else {
                None
            },
        }
    }
}

/// The index of the first of `n` orders on this side that are closest to the price;
/// the outer `None` is a distance that cannot be represented.
pub open spec fn closest_order(
    orders: Seq<(Side, Price)>,
    side: Side,
    price: Decimal,
    n: nat,
) -> Option<Option<int>>
    decreases n,
{
    if n == 0 {
        Some(None)
    } else {
        match closest_order(orders, side, price, (n - 1) as nat) {
            None => None,
            Some(best) => if orders[n - 1].0 != side {
                Some(best)
            } else {
                match best {
                    None => Some(Some(n - 1)),
                    Some(i) => match (
                        difference(orders[i].1.0, price),
                        difference(orders[n - 1].1.0, price),
                    ) {
                        (Some(was), Some(is)) => Some(
                            if absolute(was)@ > absolute(is)@ {
                                Some(n - 1)
                            } else {
                                Some(i)
                            },
                        ),
                        _ => None,
                    },
                }
            },
        }
    }
}

/// The orders without the filled one: the one at the fill price, or else the closest.
pub open spec fn without_filled(
    orders: Seq<(Side, Price)>,
    side: Side,
    price: Decimal,
) -> Option<Seq<(Side, Price)>> {
    match exact_order(orders, side, price, orders.len()) {
        Some(i) => Some(orders.remove(i)),
        None => match closest_order(orders, side, price, orders.len()) {
            None => None,
            Some(None) => Some(orders),
            Some(Some(i)) => Some(orders.remove(i)),
        },
    }
}

/// The index of the outermost of `n` orders on this side: the highest ask, the lowest
/// bid, the last of equal ones.
pub open spec fn outermost_order(orders: Seq<(Side, Price)>, side: Side, n: nat) -> Option<int>
    decreases n,
{
    if n == 0 {
        None
    } else {
        let best = outermost_order(orders, side, (n - 1) as nat);
        if orders[n - 1].0 != side {
            best
        } else {
            match best {
                None => Some(n - 1),
                Some(i) => {
                    let stays = match side {
                        Side::Ask => orders[i].1.0@ > orders[n - 1].1.0@,
                        Side::Bid => orders[i].1.0@ < orders[n - 1].1.0@,
                    };
                    if stays {
                        Some(i)
                    } else {
                        Some(n - 1)
                    }
                },
            }
        }
    }
}

/// The price that the filled side is extended from: the lowest bid, or the highest ask.
pub open spec fn side_extreme(orders: Seq<(Side, Price)>, side: Side, n: nat) -> Option<Decimal>
    decreases n,
{
    if n == 0 {
        None
    } else {
        let best = side_extreme(orders, side, (n - 1) as nat);
        let price = orders[n - 1].1.0;
        if orders[n - 1].0 != side {
            best
        } else {
            match best {
                None => Some(price),
                Some(extreme) => Some(
                    match side {
                        Side::Bid => if price@ < extreme@ {
                            price
                        } else {
                            extreme
                        },
                        Side::Ask => if price@ >= extreme@ {
                            price
                        } else {
                            extreme
                        },
                    },
                ),
            }
        }
    }
}

/// How a fill moves the ladder.
#[verifier::ext_equal]
pub struct Roll {
    /// Price of the take-profit on the other side.
    pub take_profit: Decimal,
    /// Price of the new order on the filled side.
    pub extension: Decimal,
    /// Price of the order that is dropped on the other side.
    pub dropped: Option<Price>,
    /// What rests then.
    pub orders: Seq<(Side, Price)>,
}

/// The ladder rolled by one fill.
pub open spec fn roll(
    config: LayeredGridConfig,
    orders: Seq<(Side, Price)>,
    side: Side,
    price: Decimal,
) -> Option<Roll> {
    let inner = bps_fraction(config.inner_bps as int);
    match (without_filled(orders, side, price), price_away(price, opposite(side), inner)) {
        (Some(rest), Some(take_profit)) => {
            let with_tp = rest.push((opposite(side), Price(take_profit)));
            let anchor = match side_extreme(with_tp, side, with_tp.len()) {
                Some(extreme) => extreme,
                None => price,
            };
            match price_away(anchor, side, inner) {
                None => None,
                Some(extension) => {
                    let all = with_tp.push((side, Price(extension)));
                    Some(
                        match outermost_order(rest, opposite(side), rest.len()) {
                            None => Roll { take_profit, extension, dropped: None, orders: all },
                            Some(i) => Roll {
                                take_profit,
                                extension,
                                dropped: Some(rest[i].1),
                                orders: all.remove(i),
                            },
                        },
                    )
                },
            }
        },
        _ => None,
    }
}

/// The id of the first of `n` resting quotes on this side at this price.
pub open spec fn quote_at(
    open: Seq<(QuoteId, QuoteIntent)>,
    side: Side,
    price: Decimal,
    n: nat,
) -> Option<QuoteId>
    decreases n,
{
    if n == 0 {
        None
    } else {
        match quote_at(open, side, price, (n - 1) as nat) {
            Some(id) => Some(id),
            None => if open[n - 1].1.side == side && open[n - 1].1.price.0@ == price@ {
                Some(open[n - 1].0)
            } else {
                None
            },
        }
    }
}

/// Quotes for the first `n` orders.
pub open spec fn quotes_for(
    config: LayeredGridConfig,
    symbol: Symbol,
    orders: Seq<(Side, Price)>,
    n: nat,
) -> Option<Seq<Action>>
    decreases n,
{
    if n == 0 {
        Some(Seq::empty())
    } else {
        match (
            quotes_for(config, symbol, orders, (n - 1) as nat),
            notional_quote(config, symbol, orders[n - 1].0, orders[n - 1].1.0),
        ) {
            (Some(done), Some(quote)) => Some(done.push(quote)),
            _ => None,
        }
    }
}

/// The actions of a roll: the two new orders and then the cancel of the dropped one;
/// where the venue does not know that one, everything is cancelled and quoted again.
pub open spec fn roll_actions(
    config: LayeredGridConfig,
    ctx: StrategyContext,
    side: Side,
    rolled: Roll,
) -> Option<Seq<Action>> {
    match (
        notional_quote(config, *ctx.symbol, opposite(side), rolled.take_profit),
        notional_quote(config, *ctx.symbol, side, rolled.extension),
    ) {
        (Some(tp), Some(extension)) => match rolled.dropped {
            None => Some(seq![tp, extension]),
            Some(price) => match quote_at(
                ctx.open_quotes@,
                opposite(side),
                price.0,
                ctx.open_quotes@.len(),
            ) {
                Some(id) => Some(seq![tp, extension, Action::Cancel(id)]),
                None => match quotes_for(
                    config,
                    *ctx.symbol,
                    rolled.orders,
                    rolled.orders.len(),
                ) {
                    None => None,
                    Some(quotes) => Some(seq![Action::CancelAll] + quotes),
                },
            },
        },
        _ => None,
    }
}

/// The state with a new ladder, and its quotes.
pub open spec fn placed_ladder(state: LayeredGridState, symbol: Symbol, mid: Decimal) -> Option<
    (LayeredGridState, Seq<Action>),
> {
    match ladder(state.config, symbol, mid, state.config.levels_per_side as nat) {
        None => None,
        Some(ladder) => Some(
            (
                LayeredGridState { placed: true, orders: ladder.orders, ..state },
                ladder.quotes,
            ),
        ),
    }
}

/// The first placement, on a book with both sides.
pub open spec fn placed_first(
    state: LayeredGridState,
    ctx: StrategyContext,
    snapshot: Snapshot,
) -> Option<(LayeredGridState, Seq<Action>)> {
    match mid_strict(snapshot) {
        None => None,
        Some(None) => Some((state, Seq::empty())),
        Some(Some(mid)) => match placed_ladder(state, *ctx.symbol, mid.0) {
            None => None,
            Some((next, quotes)) => Some((next, quotes + cancel_each(ctx.open_quotes@))),
        },
    }
}

/// The state and actions after one of our orders was filled.
pub open spec fn filled(
    state: LayeredGridState,
    ctx: StrategyContext,
    side: Side,
    price: Decimal,
) -> Option<(LayeredGridState, Seq<Action>)> {
    match roll(state.config, state.orders, side, price) {
        None => None,
        Some(rolled) => match roll_actions(state.config, ctx, side, rolled) {
            None => None,
            Some(actions) => Some((LayeredGridState { orders: rolled.orders, ..state }, actions)),
        },
    }
}

proof fn lemma_ladder_fails(
    config: LayeredGridConfig,
    symbol: Symbol,
    mid: Decimal,
    less: nat,
    more: nat,
)
    requires
        less <= more,
        ladder(config, symbol, mid, less) is None,
    ensures
        ladder(config, symbol, mid, more) is None,
    decreases more,
{
    if less < more {
        lemma_ladder_fails(config, symbol, mid, less, (more - 1) as nat);
    }
}

proof fn lemma_exact_found(
    orders: Seq<(Side, Price)>,
    side: Side,
    price: Decimal,
    less: nat,
    more: nat,
)
    requires
        less <= more,
        exact_order(orders, side, price, less) is Some,
    ensures
        exact_order(orders, side, price, more) == exact_order(orders, side, price, less),
    decreases more,
{
    if less < more {
        lemma_exact_found(orders, side, price, less, (more - 1) as nat);
    }
}

proof fn lemma_closest_fails(
    orders: Seq<(Side, Price)>,
    side: Side,
    price: Decimal,
    less: nat,
    more: nat,
)
    requires
        less <= more,
        closest_order(orders, side, price, less) is None,
    ensures
        closest_order(orders, side, price, more) is None,
    decreases more,
{
    if less < more {
        lemma_closest_fails(orders, side, price, less, (more - 1) as nat);
    }
}

proof fn lemma_quote_found(
    open: Seq<(QuoteId, QuoteIntent)>,
    side: Side,
    price: Decimal,
    less: nat,
    more: nat,
)
    requires
        less <= more,
        quote_at(open, side, price, less) is Some,
    ensures
        quote_at(open, side, price, more) == quote_at(open, side, price, less),
    decreases more,
{
    if less < more {
        lemma_quote_found(open, side, price, less, (more - 1) as nat);
    }
}

proof fn lemma_quotes_fail(
    config: LayeredGridConfig,
    symbol: Symbol,
    orders: Seq<(Side, Price)>,
    less: nat,
    more: nat,
)
    requires
        less <= more,
        quotes_for(config, symbol, orders, less) is None,
    ensures
        quotes_for(config, symbol, orders, more) is None,
    decreases more,
{
    if less < more {
        lemma_quotes_fail(config, symbol, orders, less, (more - 1) as nat);
    }
}

fn find_exact(orders: &Vec<(Side, Price)>, side: Side, price: Decimal) -> (result: Option<usize>)
    ensures
        match result {
            Some(i) => i < orders@.len() && exact_order(orders@, side, price, orders@.len())
                == Some(i as int),
            None => exact_order(orders@, side, price, orders@.len()) is None,
        },
{
    let mut i: usize = 0;
    while i < orders.len()
        invariant
            i <= orders@.len(),
            exact_order(orders@, side, price, i as nat) is None,
        decreases orders@.len() - i,
    {
        if orders[i].0 == side && orders[i].1.0.equals(price) {
            proof {
                lemma_exact_found(orders@, side, price, (i + 1) as nat, orders@.len());
            }
            return Some(i);
        }
        i = i + 1;
    }
    None
}

fn find_closest(orders: &Vec<(Side, Price)>, side: Side, price: Decimal) -> (result: Option<
    Option<usize>,
>)
    ensures
        match closest_order(orders@, side, price, orders@.len()) {
            None => result is None,
            Some(None) => result == Some(None::<usize>),
            Some(Some(i)) => result is Some && result->0 is Some && result->0->0 == i && 0 <= i
                < orders@.len(),
        },
{
    let mut best: Option<usize> = None;
    let mut i: usize = 0;
    while i < orders.len()
        invariant
            i <= orders@.len(),
            match best {
                Some(b) => b < i && closest_order(orders@, side, price, i as nat) == Some(
                    Some(b as int),
                ),
                None => closest_order(orders@, side, price, i as nat) == Some(None::<int>),
            },
        decreases orders@.len() - i,
    {
        proof {
            if closest_order(orders@, side, price, (i + 1) as nat) is None {
                lemma_closest_fails(orders@, side, price, (i + 1) as nat, orders@.len());
            }
        }
        if orders[i].0 == side {
            match best {
                None => {
                    best = Some(i);
                },
                Some(b) => {
                    let was = orders[b].1.0.checked_sub(price)?.abs();
                    let is = orders[i].1.0.checked_sub(price)?.abs();
                    if was.is_more(is) {
                        best = Some(i);
                    }
                },
            }
        }
        i = i + 1;
    }
    Some(best)
}

fn remove_filled(orders: &mut Vec<(Side, Price)>, side: Side, price: Decimal) -> (result: Option<()>)
    ensures
        match without_filled(old(orders)@, side, price) {
            Some(rest) => result is Some && final(orders)@ =~= rest,
            None => result is None,
        },
{
    match find_exact(orders, side, price) {
        Some(i) => {
            let _ = orders.remove(i);
        },
        None => {
            if let Some(i) = find_closest(orders, side, price)? {
                let _ = orders.remove(i);
            }
        },
    }
    Some(())
}

fn find_outermost(orders: &Vec<(Side, Price)>, side: Side) -> (result: Option<usize>)
    ensures
        match result {
            Some(i) => i < orders@.len() && outermost_order(orders@, side, orders@.len()) == Some(
                i as int,
            ),
            None => outermost_order(orders@, side, orders@.len()) is None,
        },
{
    let mut best: Option<usize> = None;
    let mut i: usize = 0;
    while i < orders.len()
        invariant
            i <= orders@.len(),
            match best {
                Some(b) => b < i && outermost_order(orders@, side, i as nat) == Some(b as int),
                None => outermost_order(orders@, side, i as nat) is None,
            },
        decreases orders@.len() - i,
    {
        if orders[i].0 == side {
            match best {
                None => {
                    best = Some(i);
                },
                Some(b) => {
                    let stays = match side {
                        Side::Ask => orders[b].1.0.is_more(orders[i].1.0),
                        Side::Bid => orders[b].1.0.is_less(orders[i].1.0),
                    };
                    if !stays {
                        best = Some(i);
                    }
                },
            }
        }
        i = i + 1;
    }
    best
}

fn find_extreme(orders: &Vec<(Side, Price)>, side: Side) -> (result: Option<Decimal>)
    ensures
        result == side_extreme(orders@, side, orders@.len()),
{
    let mut best: Option<Decimal> = None;
    let mut i: usize = 0;
    while i < orders.len()
        invariant
            i <= orders@.len(),
            best == side_extreme(orders@, side, i as nat),
        decreases orders@.len() - i,
    {
        if orders[i].0 == side {
            let price = orders[i].1.0;
            best = match best {
                None => Some(price),
                Some(extreme) => {
                    let replaces = match side {
                        Side::Bid => price.is_less(extreme),
                        Side::Ask => price.is_at_least(extreme),
                    };
                    if replaces {
                        Some(price)
                    } else {
                        Some(extreme)
                    }
                },
            };
        }
        i = i + 1;
    }
    best
}

fn find_quote(open: &[(QuoteId, QuoteIntent)], side: Side, price: Decimal) -> (result: Option<
    QuoteId,
>)
    ensures
        result == quote_at(open@, side, price, open@.len()),
{
    let mut i: usize = 0;
    while i < open.len()
        invariant
            i <= open@.len(),
            quote_at(open@, side, price, i as nat) is None,
        decreases open@.len() - i,
    {
        if open[i].1.side == side && open[i].1.price.0.equals(price) {
            proof {
                lemma_quote_found(open@, side, price, (i + 1) as nat, open@.len());
            }
            return Some(open[i].0);
        }
        i = i + 1;
    }
    None
}

impl LayeredGrid {
    fn make_quote(&self, symbol: &Symbol, side: Side, price: Price) -> (result: Option<Action>)
        ensures
            result == notional_quote(self.config, *symbol, side, price.0),
    {
        let size = Size(self.config.notional_per_order.checked_div(price.0)?);
        Some(Action::Quote(make_post_only_intent(symbol, side, price, size)))
    }

    fn push_ladder(&mut self, actions: &mut Vec<Action>, symbol: &Symbol, mid: Decimal) -> (result:
        Option<()>)
        ensures
            match placed_ladder(old(self)@, *symbol, mid) {
                Some((next, quotes)) => result is Some && final(self)@ == next && final(actions)@
                    =~= old(actions)@ + quotes,
                None => result is None,
            },
    {
        self.orders.clear();
        let n: u32 = self.config.levels_per_side;
        let mut k: u32 = 0;
        while k < n
            invariant
                k <= n,
                n == self.config.levels_per_side,
                self.config == old(self).config,
                ladder(self.config, *symbol, mid, k as nat) is Some,
                self.orders@ =~= ladder(self.config, *symbol, mid, k as nat)->0.orders,
                actions@ =~= old(actions)@ + ladder(self.config, *symbol, mid, k as nat)->0.quotes,
            decreases n - k,
        {
            proof {
                if ladder(self.config, *symbol, mid, (k + 1) as nat) is None {
                    lemma_ladder_fails(self.config, *symbol, mid, (k + 1) as nat, n as nat);
                }
            }
            let bps: u32 = self.config.inner_bps.checked_mul(k + 1)?;
            let away = try_bps_fraction(bps)?;
            let bid = Price(try_price_away(mid, Side::Bid, away)?);
            let ask = Price(try_price_away(mid, Side::Ask, away)?);
            actions.push(self.make_quote(symbol, Side::Bid, bid)?);
            actions.push(self.make_quote(symbol, Side::Ask, ask)?);
            self.orders.push((Side::Bid, bid));
            self.orders.push((Side::Ask, ask));
            k = k + 1;
        }
        self.placed = true;
        Some(())
    }

    fn place_initial(
        &mut self,
        symbol: &Symbol,
        mid: Price,
        open_quotes: &[(QuoteId, QuoteIntent)],
    ) -> (result: Option<Vec<Action>>)
        ensures
            match placed_ladder(old(self)@, *symbol, mid.0) {
                Some((next, quotes)) => result is Some && final(self)@ == next && result->0@
                    =~= quotes + cancel_each(open_quotes@),
                None => result is None,
            },
    {
        let mut actions: Vec<Action> = Vec::new();
        self.push_ladder(&mut actions, symbol, mid.0)?;
        let ghost quotes = actions@;
        let mut i: usize = 0;
        while i < open_quotes.len()
            invariant
                i <= open_quotes@.len(),
                actions@ =~= quotes + cancel_each(open_quotes@.take(i as int)),
            decreases open_quotes@.len() - i,
        {
            actions.push(Action::Cancel(open_quotes[i].0));
            assert(cancel_each(open_quotes@.take(i + 1)) =~= cancel_each(
                open_quotes@.take(i as int),
            ).push(Action::Cancel(open_quotes@[i as int].0)));
            i = i + 1;
        }
        assert(open_quotes@.take(i as int) =~= open_quotes@);
        Some(actions)
    }

    fn requote_all(&self, symbol: &Symbol) -> (result: Option<Vec<Action>>)
        ensures
            match quotes_for(self.config, *symbol, self.orders@, self.orders@.len()) {
                Some(quotes) => result is Some && result->0@ =~= seq![Action::CancelAll] + quotes,
                None => result is None,
            },
    {
        let mut actions = vec![Action::CancelAll];
        let mut i: usize = 0;
        while i < self.orders.len()
            invariant
                i <= self.orders@.len(),
                quotes_for(self.config, *symbol, self.orders@, i as nat) is Some,
                actions@ =~= seq![Action::CancelAll] + quotes_for(
                    self.config,
                    *symbol,
                    self.orders@,
                    i as nat,
                )->0,
            decreases self.orders@.len() - i,
        {
            proof {
                if quotes_for(self.config, *symbol, self.orders@, (i + 1) as nat) is None {
                    lemma_quotes_fail(
                        self.config,
                        *symbol,
                        self.orders@,
                        (i + 1) as nat,
                        self.orders@.len(),
                    );
                }
            }
            let (side, price) = self.orders[i];
            actions.push(self.make_quote(symbol, side, price)?);
            i = i + 1;
        }
        Some(actions)
    }

    fn on_fill(
        &mut self,
        ctx: &StrategyContext<'_>,
        fill_side: Side,
        fill_price: Price,
    ) -> (result: Option<Vec<Action>>)
        ensures
            follows(filled(old(self)@, *ctx, fill_side, fill_price.0), result, final(self)@),
    {
        let other = fill_side.opposite();
        remove_filled(&mut self.orders, fill_side, fill_price.0)?;
        let inner = try_bps_fraction(self.config.inner_bps)?;
        let ghost rest = self.orders@;
        let dropped = find_outermost(&self.orders, other);
        let take_profit = Price(try_price_away(fill_price.0, other, inner)?);
        self.orders.push((other, take_profit));
        let anchor = match find_extreme(&self.orders, fill_side) {
            Some(extreme) => extreme,
            None => fill_price.0,
        };
        let extension = Price(try_price_away(anchor, fill_side, inner)?);
        self.orders.push((fill_side, extension));
        let tp_quote = self.make_quote(ctx.symbol, other, take_profit)?;
        let extension_quote = self.make_quote(ctx.symbol, fill_side, extension)?;
        match dropped {
            None => Some(vec![tp_quote, extension_quote]),
            Some(i) => {
                let (_, price) = self.orders.remove(i);
                assert(price == rest[i as int].1);
                match find_quote(ctx.open_quotes, other, price.0) {
                    Some(id) => Some(vec![tp_quote, extension_quote, Action::Cancel(id)]),
                    None => self.requote_all(ctx.symbol),
                }
            },
        }
    }
}

impl Strategy for LayeredGrid {
    type Config = LayeredGridConfig;

    open spec fn initial(config: LayeredGridConfig) -> Option<LayeredGridState> {
        Some(LayeredGridState { config, placed: false, orders: Seq::empty() })
    }

    open spec fn event_step(
        state: LayeredGridState,
        ctx: StrategyContext,
        event: MarketEvent,
    ) -> Option<(LayeredGridState, Seq<Action>)> {
        match event {
            MarketEvent::BookUpdate { snapshot } => if state.placed {
                Some((state, Seq::empty()))
            } else {
                placed_first(state, ctx, snapshot)
            },
            MarketEvent::Fill(fill) => if fill.is_full {
                filled(state, ctx, fill.side, fill.price.0)
            } else {
                Some((state, Seq::empty()))
            },
            _ => Some((state, Seq::empty())),
        }
    }

    open spec fn rejection_step(
        state: LayeredGridState,
        ctx: StrategyContext,
        intent: QuoteIntent,
        reason: Seq<char>,
    ) -> Option<(LayeredGridState, Seq<Action>)> {
        match mid_strict(*ctx.latest_book) {
            None => None,
            Some(None) => Some((state, Seq::empty())),
            Some(Some(mid)) => match placed_ladder(state, *ctx.symbol, mid.0) {
                None => None,
                Some((next, quotes)) => Some((next, seq![Action::CancelAll] + quotes)),
            },
        }
    }

    fn try_new(config: LayeredGridConfig) -> (result: Option<LayeredGrid>) {
        let strategy = LayeredGrid { config, placed: false, orders: Vec::new() };
        assert(strategy@.orders =~= Seq::empty());
        Some(strategy)
    }

    fn name(&self) -> (result: &str)
        ensures
            result@ == "layered-grid"@,
    {
        "layered-grid"
    }

    fn try_on_event(&mut self, ctx: &StrategyContext<'_>, event: &MarketEvent) -> (result: Option<
        Vec<Action>,
    >) {
        match event {
            MarketEvent::BookUpdate { snapshot } => {
                if self.placed {
                    return Some(Vec::new());
                }
                match compute_mid_strict(snapshot)? {
                    None => Some(Vec::new()),
                    Some(mid) => self.place_initial(ctx.symbol, mid, ctx.open_quotes),
                }
            },
            MarketEvent::Fill(fill) => {
                if fill.is_full {
                    self.on_fill(ctx, fill.side, fill.price)
                } else {
                    Some(Vec::new())
                }
            },
            _ => Some(Vec::new()),
        }
    }

    fn try_on_quote_rejected(
        &mut self,
        ctx: &StrategyContext<'_>,
        intent: &QuoteIntent,
        reason: &str,
    ) -> (result: Option<Vec<Action>>) {
        match compute_mid_strict(ctx.latest_book)? {
            None => Some(Vec::new()),
            Some(mid) => {
                let mut actions = vec![Action::CancelAll];
                self.push_ladder(&mut actions, ctx.symbol, mid.0)?;
                Some(actions)
            },
        }
    }

    fn on_notional_updated(
        &mut self,
        ctx: &StrategyContext<'_>,
        notional_per_order: Decimal,
    ) -> (result: Vec<Action>)
        ensures
            notional_per_order@ <= 0 || notional_per_order@ == old(self).config.notional_per_order@
                ==> result@.len() == 0 && final(self)@ == old(self)@,
            notional_per_order@ > 0 && notional_per_order@ != old(self).config.notional_per_order@
                ==> result@ =~= seq![Action::CancelAll] && final(self)@ == (LayeredGridState {
                config: LayeredGridConfig { notional_per_order, ..old(self).config },
                placed: false,
                orders: Seq::empty(),
            }),
    {
        if !notional_per_order.is_positive() || notional_per_order.equals(
            self.config.notional_per_order,
        ) {
            return Vec::new();
        }
        self.config.notional_per_order = notional_per_order;
        self.placed = false;
        self.orders.clear();
        vec![Action::CancelAll]
    }
}

/// How many orders are on a side.
pub open spec fn side_count(orders: Seq<(Side, Price)>, side: Side) -> int
    decreases orders.len(),
{
    if orders.len() == 0 {
        0
    } else {
        side_count(orders.drop_last(), side) + if orders.last().0 == side {
            1int
        } else {
            0
        }
    }
}

/// Whether a placed ladder has its full number of orders on both sides.
pub open spec fn balanced(state: LayeredGridState) -> bool {
    state.placed ==> side_count(state.orders, Side::Bid) == state.config.levels_per_side
        && side_count(state.orders, Side::Ask) == state.config.levels_per_side
}

proof fn lemma_count_push(orders: Seq<(Side, Price)>, order: (Side, Price), side: Side)
    ensures
        side_count(orders.push(order), side) == side_count(orders, side) + if order.0 == side {
            1int
        } else {
            0
        },
{
    assert(orders.push(order).drop_last() =~= orders);
}

proof fn lemma_count_remove(orders: Seq<(Side, Price)>, i: int, side: Side)
    requires
        0 <= i < orders.len(),
    ensures
        side_count(orders.remove(i), side) == side_count(orders, side) - if orders[i].0 == side {
            1int
        } else {
            0
        },
    decreases orders.len(),
{
    let shorter = orders.drop_last();
    if i == orders.len() - 1 {
        assert(orders.remove(i) =~= shorter);
    } else {
        lemma_count_remove(shorter, i, side);
        assert(orders.remove(i) =~= shorter.remove(i).push(orders.last()));
        lemma_count_push(shorter.remove(i), orders.last(), side);
    }
}

proof fn lemma_count_ladder(config: LayeredGridConfig, symbol: Symbol, mid: Decimal, n: nat)
    ensures
        ladder(config, symbol, mid, n) matches Some(done) ==> side_count(done.orders, Side::Bid)
            == n && side_count(done.orders, Side::Ask) == n && done.quotes.len() == 2 * n,
    decreases n,
{
    if n > 0 {
        lemma_count_ladder(config, symbol, mid, (n - 1) as nat);
        if let Some(done) = ladder(config, symbol, mid, (n - 1) as nat) {
            if let Some(level) = ladder_level(config, symbol, mid, n - 1) {
                let first = done.orders.push(level.orders[0]);
                assert(done.orders + level.orders =~= first.push(level.orders[1]));
                lemma_count_push(done.orders, level.orders[0], Side::Bid);
                lemma_count_push(done.orders, level.orders[0], Side::Ask);
                lemma_count_push(first, level.orders[1], Side::Bid);
                lemma_count_push(first, level.orders[1], Side::Ask);
            }
        }
    }
}

proof fn lemma_exact_is_on_side(orders: Seq<(Side, Price)>, side: Side, price: Decimal, n: nat)
    ensures
        exact_order(orders, side, price, n) matches Some(i) ==> 0 <= i < n && orders[i].0 == side,
    decreases n,
{
    if n > 0 {
        lemma_exact_is_on_side(orders, side, price, (n - 1) as nat);
    }
}

proof fn lemma_closest_is_on_side(orders: Seq<(Side, Price)>, side: Side, price: Decimal, n: nat)
    requires
        n <= orders.len(),
    ensures
        closest_order(orders, side, price, n) matches Some(Some(i)) ==> 0 <= i < n && orders[i].0
            == side,
        closest_order(orders, side, price, n) == Some(None::<int>) ==> side_count(
            orders.take(n as int),
            side,
        ) == 0,
    decreases n,
{
    if n > 0 {
        lemma_closest_is_on_side(orders, side, price, (n - 1) as nat);
        assert(orders.take(n as int).drop_last() =~= orders.take(n - 1));
        assert(orders.take(n as int).last() == orders[n - 1]);
    }
}

proof fn lemma_outermost_is_on_side(orders: Seq<(Side, Price)>, side: Side, n: nat)
    requires
        n <= orders.len(),
    ensures
        outermost_order(orders, side, n) matches Some(i) ==> 0 <= i < n && orders[i].0 == side,
        outermost_order(orders, side, n) is None ==> side_count(orders.take(n as int), side) == 0,
    decreases n,
{
    if n > 0 {
        lemma_outermost_is_on_side(orders, side, (n - 1) as nat);
        assert(orders.take(n as int).drop_last() =~= orders.take(n - 1));
        assert(orders.take(n as int).last() == orders[n - 1]);
    }
}

proof fn lemma_count_without_filled(
    orders: Seq<(Side, Price)>,
    side: Side,
    price: Decimal,
    of: Side,
)
    requires
        side_count(orders, side) > 0,
    ensures
        without_filled(orders, side, price) matches Some(rest) ==> side_count(rest, of)
            == side_count(orders, of) - if of == side {
            1int
        } else {
            0
        },
{
    let n = orders.len();
    assert(orders.take(n as int) =~= orders);
    lemma_exact_is_on_side(orders, side, price, n);
    lemma_closest_is_on_side(orders, side, price, n);
    if let Some(i) = exact_order(orders, side, price, n) {
        lemma_count_remove(orders, i, of);
    } else if let Some(Some(i)) = closest_order(orders, side, price, n) {
        lemma_count_remove(orders, i, of);
    }
}

proof fn lemma_count_roll(
    config: LayeredGridConfig,
    orders: Seq<(Side, Price)>,
    side: Side,
    price: Decimal,
    of: Side,
)
    requires
        side_count(orders, Side::Bid) > 0,
        side_count(orders, Side::Ask) > 0,
    ensures
        roll(config, orders, side, price) matches Some(rolled) ==> side_count(rolled.orders, of)
            == side_count(orders, of) && rolled.dropped is Some,
{
    if let Some(rolled) = roll(config, orders, side, price) {
        let rest = without_filled(orders, side, price)->0;
        let other = opposite(side);
        lemma_count_without_filled(orders, side, price, of);
        lemma_count_without_filled(orders, side, price, other);
        assert(rest.take(rest.len() as int) =~= rest);
        lemma_outermost_is_on_side(rest, other, rest.len());
        let with_tp = rest.push((other, Price(rolled.take_profit)));
        lemma_count_push(rest, (other, Price(rolled.take_profit)), of);
        let all = with_tp.push((side, Price(rolled.extension)));
        lemma_count_push(with_tp, (side, Price(rolled.extension)), of);
        let i = outermost_order(rest, other, rest.len())->0;
        assert(all[i] == rest[i]);
        lemma_count_remove(all, i, of);
    }
}

/// A new strategy, every event and every rejection leave a placed ladder with its full
/// number of orders on both sides.
pub proof fn law_order_count_is_invariant(
    state: LayeredGridState,
    ctx: StrategyContext,
    event: MarketEvent,
    intent: QuoteIntent,
    reason: Seq<char>,
)
    requires
        state.config.levels_per_side > 0,
        balanced(state),
    ensures
        LayeredGrid::initial(state.config) matches Some(new) ==> balanced(new),
        LayeredGrid::event_step(state, ctx, event) matches Some((next, _)) ==> balanced(next),
        LayeredGrid::rejection_step(state, ctx, intent, reason) matches Some((next, _))
            ==> balanced(next),
{
    let n = state.config.levels_per_side as nat;
    if let Some(Some(mid)) = mid_strict(*ctx.latest_book) {
        lemma_count_ladder(state.config, *ctx.symbol, mid.0, n);
    }
    match event {
        MarketEvent::BookUpdate { snapshot } => {
            if let Some(Some(mid)) = mid_strict(snapshot) {
                lemma_count_ladder(state.config, *ctx.symbol, mid.0, n);
            }
        },
        MarketEvent::Fill(fill) => {
            if state.placed {
                lemma_count_roll(state.config, state.orders, fill.side, fill.price.0, Side::Bid);
                lemma_count_roll(state.config, state.orders, fill.side, fill.price.0, Side::Ask);
            }
        },
        _ => {},
    }
}

/// Once the ladder is placed, only full fills change anything.
pub proof fn law_acts_on_full_fills_only(
    state: LayeredGridState,
    ctx: StrategyContext,
    event: MarketEvent,
)
    requires
        state.placed,
        event matches MarketEvent::Fill(fill) ==> !fill.is_full,
    ensures
        LayeredGrid::event_step(state, ctx, event) == Some((state, Seq::<Action>::empty())),
{
}

/// A fill on a ladder with orders on both sides quotes the take-profit on the other
/// side first, then the extension, and then cancels the dropped order; or, where that
/// one is not known to rest, cancels everything and quotes the ladder anew.
pub proof fn law_fill_rolls_the_ladder(
    state: LayeredGridState,
    ctx: StrategyContext,
    side: Side,
    price: Decimal,
)
    requires
        side_count(state.orders, Side::Bid) > 0,
        side_count(state.orders, Side::Ask) > 0,
    ensures
        filled(state, ctx, side, price) matches Some((next, actions)) ==> {
            ||| actions.len() == 3 && (actions[0] matches Action::Quote(tp) && tp.side == opposite(
                side,
            )) && (actions[1] matches Action::Quote(extension) && extension.side == side)
                && actions[2] is Cancel
            ||| actions.len() > 0 && actions[0] is CancelAll
        },
{
    if let Some(rolled) = roll(state.config, state.orders, side, price) {
        lemma_count_roll(state.config, state.orders, side, price, side);
    }
}

/// Whether the venue lists a quote on this side at this price.
pub open spec fn is_listed(open: Seq<(QuoteId, QuoteIntent)>, side: Side, price: Decimal) -> bool {
    exists|k: int|
        0 <= k < open.len() && (#[trigger] open[k]).1.side == side && open[k].1.price.0@ == price@
}

/// Whether the venue lists every order of the ladder on this side.
pub open spec fn lists_side(
    open: Seq<(QuoteId, QuoteIntent)>,
    orders: Seq<(Side, Price)>,
    side: Side,
) -> bool {
    forall|i: int|
        0 <= i < orders.len() && (#[trigger] orders[i]).0 == side ==> is_listed(
            open,
            side,
            orders[i].1.0,
        )
}

/// Whether no order of the ladder on this side is farther out than the price.
pub open spec fn is_outermost(orders: Seq<(Side, Price)>, side: Side, price: Price) -> bool {
    &&& exists|i: int| 0 <= i < orders.len() && #[trigger] orders[i] == (side, price)
    &&& forall|i: int|
        0 <= i < orders.len() && (#[trigger] orders[i]).0 == side ==> match side {
            Side::Ask => orders[i].1.0@ <= price.0@,
            Side::Bid => orders[i].1.0@ >= price.0@,
        }
}

proof fn lemma_outermost(orders: Seq<(Side, Price)>, side: Side, n: nat)
    requires
        n <= orders.len(),
    ensures
        outermost_order(orders, side, n) matches Some(best) ==> forall|i: int|
            0 <= i < n && (#[trigger] orders[i]).0 == side ==> match side {
                Side::Ask => orders[i].1.0@ <= orders[best].1.0@,
                Side::Bid => orders[i].1.0@ >= orders[best].1.0@,
            },
        outermost_order(orders, side, n) is None ==> forall|i: int|
            0 <= i < n ==> (#[trigger] orders[i]).0 != side,
    decreases n,
{
    if n > 0 {
        lemma_outermost(orders, side, (n - 1) as nat);
    }
}

proof fn lemma_quote_at(open: Seq<(QuoteId, QuoteIntent)>, side: Side, price: Decimal, n: nat)
    requires
        n <= open.len(),
    ensures
        quote_at(open, side, price, n) matches Some(id) ==> exists|k: int|
            0 <= k < n && (#[trigger] open[k]).0 == id && open[k].1.side == side
                && open[k].1.price.0@ == price@,
        quote_at(open, side, price, n) is None ==> forall|k: int|
            0 <= k < n ==> !((#[trigger] open[k]).1.side == side && open[k].1.price.0@ == price@),
    decreases n,
{
    if n > 0 {
        lemma_quote_at(open, side, price, (n - 1) as nat);
        if let Some(id) = quote_at(open, side, price, n) {
            if quote_at(open, side, price, (n - 1) as nat) is None {
                assert(open[n - 1].0 == id);
            }
        }
    }
}

proof fn lemma_rest_keeps_other_side(
    orders: Seq<(Side, Price)>,
    side: Side,
    price: Decimal,
    i: int,
) -> (j: int)
    requires
        without_filled(orders, side, price) is Some,
        0 <= i < orders.len(),
        orders[i].0 != side,
    ensures
        0 <= j < without_filled(orders, side, price)->0.len(),
        without_filled(orders, side, price)->0[j] == orders[i],
{
    let n = orders.len();
    lemma_exact_is_on_side(orders, side, price, n);
    lemma_closest_is_on_side(orders, side, price, n);
    match exact_order(orders, side, price, n) {
        Some(x) => if i < x {
            i
        } else {
            i - 1
        },
        None => match closest_order(orders, side, price, n)->0 {
            None => i,
            Some(x) => if i < x {
                i
            } else {
                i - 1
            },
        },
    }
}

proof fn lemma_rest_is_from_ladder(
    orders: Seq<(Side, Price)>,
    side: Side,
    price: Decimal,
    j: int,
) -> (i: int)
    requires
        without_filled(orders, side, price) is Some,
        0 <= j < without_filled(orders, side, price)->0.len(),
    ensures
        0 <= i < orders.len(),
        without_filled(orders, side, price)->0[j] == orders[i],
{
    let n = orders.len();
    lemma_exact_is_on_side(orders, side, price, n);
    lemma_closest_is_on_side(orders, side, price, n);
    match exact_order(orders, side, price, n) {
        Some(x) => if j < x {
            j
        } else {
            j + 1
        },
        None => match closest_order(orders, side, price, n)->0 {
            None => j,
            Some(x) => if j < x {
                j
            } else {
                j + 1
            },
        },
    }
}

proof fn lemma_dropped_is_outermost(
    config: LayeredGridConfig,
    orders: Seq<(Side, Price)>,
    side: Side,
    price: Decimal,
)
    requires
        side_count(orders, Side::Bid) > 0,
        side_count(orders, Side::Ask) > 0,
    ensures
        roll(config, orders, side, price) matches Some(rolled) ==> rolled.dropped is Some
            && is_outermost(orders, opposite(side), rolled.dropped->0),
{
    if let Some(rolled) = roll(config, orders, side, price) {
        let other = opposite(side);
        let rest = without_filled(orders, side, price)->0;
        let dropped = rolled.dropped->0;
        lemma_count_roll(config, orders, side, price, side);
        lemma_outermost(rest, other, rest.len());
        lemma_outermost_is_on_side(rest, other, rest.len());
        let best = outermost_order(rest, other, rest.len())->0;
        let at = lemma_rest_is_from_ladder(orders, side, price, best);
        assert(orders[at] == (other, dropped));
        assert forall|i: int| 0 <= i < orders.len() && (#[trigger] orders[i]).0
            == other implies match other {
            Side::Ask => orders[i].1.0@ <= dropped.0@,
            Side::Bid => orders[i].1.0@ >= dropped.0@,
        } by {
            let j = lemma_rest_keeps_other_side(orders, side, price, i);
            assert(rest[j].0 == other);
        }
    }
}

/// While the venue lists the orders opposite a fill, the fill never cancels everything: it
/// quotes the take-profit and the extension and cancels one order, the outermost of the
/// ladder on the other side, by its id.
pub proof fn law_fill_cancels_the_outermost(
    state: LayeredGridState,
    ctx: StrategyContext,
    side: Side,
    price: Decimal,
)
    requires
        side_count(state.orders, Side::Bid) > 0,
        side_count(state.orders, Side::Ask) > 0,
        lists_side(ctx.open_quotes@, state.orders, opposite(side)),
    ensures
        filled(state, ctx, side, price) matches Some((next, actions)) ==> {
            &&& actions.len() == 3
            &&& actions[0] matches Action::Quote(tp) && tp.side == opposite(side)
            &&& actions[1] matches Action::Quote(extension) && extension.side == side
            &&& actions[2] matches Action::Cancel(id) && exists|k: int|
                0 <= k < ctx.open_quotes@.len() && (#[trigger] ctx.open_quotes@[k]).0 == id
                    && ctx.open_quotes@[k].1.side == opposite(side) && exists|dropped: Price|
                    #[trigger] is_outermost(state.orders, opposite(side), dropped)
                        && ctx.open_quotes@[k].1.price.0@ == dropped.0@
        },
{
    if let Some((next, actions)) = filled(state, ctx, side, price) {
        let open = ctx.open_quotes@;
        let other = opposite(side);
        let rolled = roll(state.config, state.orders, side, price)->0;
        lemma_dropped_is_outermost(state.config, state.orders, side, price);
        let dropped = rolled.dropped->0;
        let at = choose|i: int|
            0 <= i < state.orders.len() && #[trigger] state.orders[i] == (other, dropped);
        assert(state.orders[at].0 == other);
        assert(is_listed(open, other, dropped.0));
        lemma_quote_at(open, other, dropped.0, open.len());
        let k = choose|k: int|
            0 <= k < open.len() && (#[trigger] open[k]).1.side == other && open[k].1.price.0@
                == dropped.0@;
        assert(open[k].1.side == other);
    }
}

proof fn lemma_ladder_keeps_to(
    config: LayeredGridConfig,
    symbol: Symbol,
    mid: Decimal,
    n: nat,
)
    ensures
        ladder(config, symbol, mid, n) matches Some(done) ==> keeps_to(done.quotes, symbol),
    decreases n,
{
    if n > 0 {
        lemma_ladder_keeps_to(config, symbol, mid, (n - 1) as nat);
        if let (Some(done), Some(level)) = (
            ladder(config, symbol, mid, (n - 1) as nat),
            ladder_level(config, symbol, mid, n - 1),
        ) {
            lemma_keeps_to_joined(done.quotes, level.quotes, symbol);
        }
    }
}

proof fn lemma_quotes_keep_to(
    config: LayeredGridConfig,
    symbol: Symbol,
    orders: Seq<(Side, Price)>,
    n: nat,
)
    ensures
        quotes_for(config, symbol, orders, n) matches Some(quotes) ==> keeps_to(quotes, symbol),
    decreases n,
{
    if n > 0 {
        lemma_quotes_keep_to(config, symbol, orders, (n - 1) as nat);
    }
}

proof fn lemma_roll_keeps_to(
    config: LayeredGridConfig,
    ctx: StrategyContext,
    side: Side,
    rolled: Roll,
)
    ensures
        roll_actions(config, ctx, side, rolled) matches Some(actions) ==> keeps_to(
            actions,
            *ctx.symbol,
        ),
{
    let orders = rolled.orders;
    lemma_quotes_keep_to(config, *ctx.symbol, orders, orders.len());
    if let Some(quotes) = quotes_for(config, *ctx.symbol, orders, orders.len()) {
        lemma_keeps_to_joined(seq![Action::CancelAll], quotes, *ctx.symbol);
    }
}

/// No event and no rejection calls for an order in another instrument.
pub proof fn law_quotes_its_instrument(
    state: LayeredGridState,
    ctx: StrategyContext,
    event: MarketEvent,
    intent: QuoteIntent,
    reason: Seq<char>,
)
    ensures
        LayeredGrid::event_step(state, ctx, event) matches Some((_, actions)) ==> keeps_to(
            actions,
            *ctx.symbol,
        ),
        LayeredGrid::rejection_step(state, ctx, intent, reason) matches Some((_, actions))
            ==> keeps_to(actions, *ctx.symbol),
{
    let levels = state.config.levels_per_side as nat;
    match event {
        MarketEvent::BookUpdate { snapshot } => {
            if let Some(Some(mid)) = mid_strict(snapshot) {
                lemma_ladder_keeps_to(state.config, *ctx.symbol, mid.0, levels);
                if let Some((_, quotes)) = placed_ladder(state, *ctx.symbol, mid.0) {
                    lemma_keeps_to_joined(quotes, cancel_each(ctx.open_quotes@), *ctx.symbol);
                }
            }
        },
        MarketEvent::Fill(fill) => {
            if let Some(rolled) = roll(state.config, state.orders, fill.side, fill.price.0) {
                lemma_roll_keeps_to(state.config, ctx, fill.side, rolled);
            }
        },
        _ => {},
    }
    if let Some(Some(mid)) = mid_strict(*ctx.latest_book) {
        lemma_ladder_keeps_to(state.config, *ctx.symbol, mid.0, levels);
        if let Some((_, quotes)) = placed_ladder(state, *ctx.symbol, mid.0) {
            lemma_keeps_to_joined(seq![Action::CancelAll], quotes, *ctx.symbol);
        }
    }
}

/// The levels of a ladder lie `inner_bps` apart on either side of the mid, the first as far from
/// it, a bid and an ask at each.
pub proof fn law_levels_are_spaced(
    config: LayeredGridConfig,
    symbol: Symbol,
    mid: Decimal,
    n: nat,
    k: int,
)
    requires
        0 <= k < n,
    ensures
        ladder(config, symbol, mid, n) matches Some(all) ==> {
            let away = quotient(whole(config.inner_bps * (k + 1)), whole(10_000));
            let (bid, ask) = (all.orders[2 * k], all.orders[2 * k + 1]);
            &&& all.orders.len() == 2 * n && all.quotes.len() == 2 * n
            &&& bid.0 is Bid && Some(bid.1.0) == times(Some(mid), minus(Some(whole(1)), away))
            &&& ask.0 is Ask && Some(ask.1.0) == times(Some(mid), plus(Some(whole(1)), away))
            &&& Some(all.quotes[2 * k]) == notional_quote(config, symbol, Side::Bid, bid.1.0)
            &&& Some(all.quotes[2 * k + 1]) == notional_quote(config, symbol, Side::Ask, ask.1.0)
        },
    decreases n,
{
    if k < n - 1 {
        law_levels_are_spaced(config, symbol, mid, (n - 1) as nat, k);
    } else if n > 1 {
        law_levels_are_spaced(config, symbol, mid, (n - 1) as nat, 0);
    }
}

/// A filled bid is answered by an ask `inner_bps` above the fill, a filled ask by a bid as far
/// below it.
pub proof fn law_take_profit_is_off_the_fill(
    config: LayeredGridConfig,
    orders: Seq<(Side, Price)>,
    price: Decimal,
)
    ensures
        ({
            let away = quotient(whole(config.inner_bps as int), whole(10_000));
            &&& roll(config, orders, Side::Bid, price) matches Some(rolled) ==> Some(
                rolled.take_profit,
            ) == times(Some(price), plus(Some(whole(1)), away))
            &&& roll(config, orders, Side::Ask, price) matches Some(rolled) ==> Some(
                rolled.take_profit,
            ) == times(Some(price), minus(Some(whole(1)), away))
        }),
{
}

/// The order that a side is extended from is one of its own, and none of them is further out.
pub proof fn law_extreme_is_the_furthest(orders: Seq<(Side, Price)>, side: Side, n: nat, j: int)
    requires
        n <= orders.len(),
    ensures
        0 <= j < n && orders[j].0 == side ==> side_extreme(orders, side, n) is Some,
        0 <= j < n && orders[j].0 == side && side is Bid ==> side_extreme(orders, side, n)->0@
            <= orders[j].1.0@,
        0 <= j < n && orders[j].0 == side && side is Ask ==> side_extreme(orders, side, n)->0@
            >= orders[j].1.0@,
        side_extreme(orders, side, n) matches Some(extreme) ==> exists|i: int|
            0 <= i < n && (#[trigger] orders[i]).0 == side && orders[i].1.0 == extreme,
    decreases n,
{
    if n > 0 {
        law_extreme_is_the_furthest(orders, side, (n - 1) as nat, j);
        assert(orders[n - 1] == orders[n - 1]);
    }
}

/// The filled side is extended by an order `inner_bps` beyond its furthest one, or beyond the
/// fill where none is left.
pub proof fn law_extension_is_beyond_the_furthest(
    config: LayeredGridConfig,
    orders: Seq<(Side, Price)>,
    side: Side,
    price: Decimal,
    rest: Seq<(Side, Price)>,
)
    requires
        without_filled(orders, side, price) == Some(rest),
    ensures
        roll(config, orders, side, price) matches Some(rolled) ==> {
            let away = quotient(whole(config.inner_bps as int), whole(10_000));
            let from = match side_extreme(rest, side, rest.len()) {
                Some(extreme) => extreme,
                None => price,
            };
            &&& side is Bid ==> Some(rolled.extension) == times(
                Some(from),
                minus(Some(whole(1)), away),
            )
            &&& side is Ask ==> Some(rolled.extension) == times(
                Some(from),
                plus(Some(whole(1)), away),
            )
        },
{
    if let Some(rolled) = roll(config, orders, side, price) {
        let with_tp = rest.push((opposite(side), Price(rolled.take_profit)));
        lemma_extreme_prefix(rest, with_tp, side, rest.len());
    }
}

proof fn lemma_extreme_prefix(
    rest: Seq<(Side, Price)>,
    longer: Seq<(Side, Price)>,
    side: Side,
    n: nat,
)
    requires
        n <= rest.len() < longer.len(),
        forall|i: int| 0 <= i < rest.len() ==> rest[i] == #[trigger] longer[i],
    ensures
        side_extreme(rest, side, n) == side_extreme(longer, side, n),
    decreases n,
{
    if n > 0 {
        lemma_extreme_prefix(rest, longer, side, (n - 1) as nat);
        assert(rest[n - 1] == longer[n - 1]);
    }
}

/// The order taken off the ladder is the first at the fill's side and price, where there is one.
pub proof fn law_filled_order_is_found(
    orders: Seq<(Side, Price)>,
    side: Side,
    price: Decimal,
    n: nat,
    j: int,
)
    requires
        n <= orders.len(),
    ensures
        exact_order(orders, side, price, n) matches Some(i) ==> 0 <= i < n && orders[i].0 == side
            && orders[i].1.0@ == price@,
        0 <= j < n && orders[j].0 == side && orders[j].1.0@ == price@ ==> exact_order(
            orders,
            side,
            price,
            n,
        ) is Some && exact_order(orders, side, price, n)->0 <= j,
    decreases n,
{
    if n > 0 {
        law_filled_order_is_found(orders, side, price, (n - 1) as nat, j);
    }
}

/// Without one, it is an order of that side to whose price none is closer.
pub proof fn law_closest_order_is_found(
    orders: Seq<(Side, Price)>,
    side: Side,
    price: Decimal,
    n: nat,
    j: int,
)
    requires
        n <= orders.len(),
        closest_order(orders, side, price, n) is Some,
    ensures
        closest_order(orders, side, price, n)->0 matches Some(i) ==> 0 <= i < n && orders[i].0
            == side,
        0 <= j < n && orders[j].0 == side ==> closest_order(orders, side, price, n)->0 is Some && {
            let i = closest_order(orders, side, price, n)->0->0;
            i != j ==> difference(orders[i].1.0, price) is Some && difference(
                orders[j].1.0,
                price,
            ) is Some && absolute(difference(orders[i].1.0, price)->0)@ <= absolute(
                difference(orders[j].1.0, price)->0,
            )@
        },
    decreases n,
{
    if n > 0 {
        law_closest_order_is_found(orders, side, price, (n - 1) as nat, j);
        if let Some(Some(b)) = closest_order(orders, side, price, (n - 1) as nat) {
            law_closest_order_is_found(orders, side, price, (n - 1) as nat, b);
        }
    }
}

/// The ladder is laid once, around the mid of the first book with both sides, and what rested
/// before is cancelled; a rejection lays it anew around the current mid.
pub proof fn law_ladder_is_laid_around_the_mid(
    state: LayeredGridState,
    ctx: StrategyContext,
    snapshot: Snapshot,
    mid: Price,
    intent: QuoteIntent,
    reason: Seq<char>,
)
    requires
        mid_strict(snapshot) == Some(Some(mid)),
        mid_strict(*ctx.latest_book) == Some(Some(mid)),
    ensures
        state.placed ==> LayeredGrid::event_step(
            state,
            ctx,
            MarketEvent::BookUpdate { snapshot },
        ) == Some((state, Seq::<Action>::empty())),
        !state.placed ==> (LayeredGrid::event_step(
            state,
            ctx,
            MarketEvent::BookUpdate { snapshot },
        ) matches Some((next, actions)) ==> {
            let all = ladder(
                state.config,
                *ctx.symbol,
                mid.0,
                state.config.levels_per_side as nat,
            )->0;
            &&& next.placed && next.orders == all.orders
            &&& actions.len() == all.quotes.len() + ctx.open_quotes@.len()
            &&& forall|i: int|
                0 <= i < all.quotes.len() ==> #[trigger] actions[i] == all.quotes[i]
            &&& forall|j: int|
                0 <= j < ctx.open_quotes@.len() ==> actions[all.quotes.len() + j]
                    == Action::Cancel((#[trigger] ctx.open_quotes@[j]).0)
        }),
        LayeredGrid::rejection_step(state, ctx, intent, reason) matches Some((next, actions)) ==> {
            let all = ladder(
                state.config,
                *ctx.symbol,
                mid.0,
                state.config.levels_per_side as nat,
            )->0;
            next.placed && next.orders == all.orders && actions == seq![Action::CancelAll]
                + all.quotes
        },
{
}

} // verus!
