//! Micro mean reversion: captures short-term overshoots.
//!
//! Watches the last trade against the book mid. A trade far enough beyond the mid
//! places one passive order on the other side, expecting a snapback; a full fill
//! places one passive exit at a distance from the position's blended cost.
//!
//! Three mechanisms guard it: entries only on trades that sweep the touch
//! (`confirm_touch`), no same-side adds while the position runs adverse
//! (`add_block_bps`), and an exit relaxed to a fixed small profit once the position
//! is adverse enough (`tp_relax_*`), which never crosses and never sits at or
//! beyond break-even.

use crate::decimal::{
    absolute, difference, exact_difference, minus, negated, over, plus, pow10, product, quotient,
    times, whole, Decimal,
};
use crate::market::{
    maker_order, opposite, Fill, MarketEvent, Price, QuoteId, QuoteIntent, Side, Size, Symbol,
};
use crate::quoting::{
    bps_fraction, compute_mid_strict, elapsed, fires_at, lemma_fires_at, lemma_reads_bps_turned,
    lemma_reads_exactly, make_post_only_intent, measures_exactly, mentions, mid_strict, price_away,
    reads_bps, reads_exactly, text_contains, try_bps_of, try_price_away,
};
use crate::strategy::{follows, keeps_to, quotes_on, Action, Strategy, StrategyContext};
use vstd::prelude::*;

verus! {

/// Configuration for [`MicroMeanReversion`].
#[derive(Clone, Copy, Debug)]
pub struct MicroMeanReversionConfig {
    /// Fiat notional per order. Quantity is `notional_per_order / price`.
    pub notional_per_order: Decimal,
    /// Trade distance from mid required before entering, in bps.
    pub trigger_bps: u32,
    /// Passive entry distance from mid, in bps.
    pub entry_bps: u32,
    /// Exit distance from the blended cost, in bps.
    pub exit_bps: u32,
    /// Most same-side quotes to keep open.
    pub max_open_entries: u32,
    /// Enter only on a trade at or through the touch.
    pub confirm_touch: bool,
    /// Adverse move from the entry that relaxes the exit, in bps. `0` disables.
    pub tp_relax_trigger_bps: u32,
    /// Profit at which the relaxed exit rests, in bps.
    pub tp_relax_floor_bps: u32,
    /// Adverse move from the entry that stops same-side adds, in bps. `0`
    /// disables.
    pub add_block_bps: u32,
    /// Least time between same-side entries, in ms. `0` disables.
    pub entry_cooldown_ms: u64,
}

/// Micro mean-reversion strategy.
pub struct MicroMeanReversion {
    /// Settings.
    pub config: MicroMeanReversionConfig,
    /// Time of the last ask entry, in ns.
    pub last_ask_entry_ns: Option<u64>,
    /// Time of the last bid entry, in ns.
    pub last_bid_entry_ns: Option<u64>,
}

impl View for MicroMeanReversion {
    type V = Self;

    open spec fn view(&self) -> Self {
        *self
    }
}

/// A passive quote of the configured notional.
pub open spec fn notional_quote(
    config: MicroMeanReversionConfig,
    symbol: Symbol,
    side: Side,
    price: Decimal,
) -> Option<Action> {
    match quotient(config.notional_per_order, price) {
        None => None,
        Some(size) => Some(Action::Quote(maker_order(symbol, side, price, size))),
    }
}

/// `price`, or the touch on the same side where `price` would cross the other one.
pub open spec fn maker_safe(ctx: StrategyContext, side: Side, price: Decimal) -> Decimal {
    let bids = ctx.latest_book.bids@;
    let asks = ctx.latest_book.asks@;
    if bids.len() == 0 || asks.len() == 0 {
        price
    } else {
        match side {
            Side::Ask => if price@ <= bids[0].price.0@ {
                asks[0].price.0
            } else {
                price
            },
            Side::Bid => if price@ >= asks[0].price.0@ {
                bids[0].price.0
            } else {
                price
            },
        }
    }
}

/// Price of an entry: away from the mid, without crossing.
pub open spec fn entry_price(
    config: MicroMeanReversionConfig,
    ctx: StrategyContext,
    mid: Price,
    side: Side,
) -> Option<Decimal> {
    match price_away(mid.0, side, bps_fraction(config.entry_bps as int)) {
        None => None,
        Some(price) => Some(maker_safe(ctx, side, price)),
    }
}

/// An entry.
pub open spec fn entry_action(
    config: MicroMeanReversionConfig,
    ctx: StrategyContext,
    mid: Price,
    side: Side,
) -> Option<Action> {
    match entry_price(config, ctx, mid, side) {
        None => None,
        Some(price) => notional_quote(config, *ctx.symbol, side, price),
    }
}

/// How many open quotes are on a side.
pub open spec fn open_on(open: Seq<(QuoteId, QuoteIntent)>, side: Side) -> nat
    decreases open.len(),
{
    if open.len() == 0 {
        0
    } else {
        open_on(open.drop_last(), side) + if open.last().1.side == side {
            1nat
        } else {
            0
        }
    }
}

/// Whether an open quote rests on a side at a price.
pub open spec fn resting_at(open: Seq<(QuoteId, QuoteIntent)>, side: Side, price: Decimal) -> bool {
    exists|i: int|
        0 <= i < open.len() && (#[trigger] open[i]).1.side == side && open[i].1.price.0@ == price@
}

/// Whether an entry on a side is too soon after the last one there.
pub open spec fn throttled(state: MicroMeanReversion, now_ns: u64, side: Side) -> Option<bool> {
    let last = match side {
        Side::Ask => state.last_ask_entry_ns,
        Side::Bid => state.last_bid_entry_ns,
    };
    let cooldown = state.config.entry_cooldown_ms * 1_000_000;
    if state.config.entry_cooldown_ms == 0 || last is None {
        Some(false)
    } else if cooldown > u64::MAX {
        None
    } else {
        Some(elapsed(now_ns, last->0) < cooldown)
    }
}

/// The state once an entry is recorded.
pub open spec fn entered(state: MicroMeanReversion, now_ns: u64, side: Side) -> MicroMeanReversion {
    match side {
        Side::Ask => MicroMeanReversion { last_ask_entry_ns: Some(now_ns), ..state },
        Side::Bid => MicroMeanReversion { last_bid_entry_ns: Some(now_ns), ..state },
    }
}

/// Move of the mid against the position, in bps of its entry; zero when flat.
pub open spec fn adverse_move(ctx: StrategyContext, mid: Price) -> Option<Decimal> {
    let size = ctx.position.size.0;
    let entry = ctx.position.avg_entry.0;
    if size@ == 0 || entry@ <= 0 {
        Some(whole(0))
    } else {
        match times(over(difference(mid.0, entry), Some(entry)), Some(whole(10_000))) {
            None => None,
            Some(bps) => Some(
                if size@ > 0 {
                    negated(bps)
                } else {
                    bps
                },
            ),
        }
    }
}

/// The side that closes the position.
pub open spec fn exit_side(size: Decimal) -> Side {
    if size@ > 0 {
        Side::Ask
    } else {
        Side::Bid
    }
}

/// Whether a relaxed exit at `price` is a profit, rests, and is not already worse
/// than the touch.
pub open spec fn relaxed_exit_rests(ctx: StrategyContext, price: Decimal) -> bool {
    let entry = ctx.position.avg_entry.0;
    let bids = ctx.latest_book.bids@;
    let asks = ctx.latest_book.asks@;
    &&& bids.len() > 0
    &&& asks.len() > 0
    &&& if ctx.position.size.0@ > 0 {
        price@ > entry@ && price@ > bids[0].price.0@ && asks[0].price.0@ > price@
    } else {
        price@ < entry@ && price@ < asks[0].price.0@ && bids[0].price.0@ < price@
    }
}

/// The relaxed exit price; the inner `None` is where there is none to place.
pub open spec fn relaxed_exit(config: MicroMeanReversionConfig, ctx: StrategyContext) -> Option<
    Option<Price>,
> {
    let size = ctx.position.size.0;
    let entry = ctx.position.avg_entry.0;
    if size@ == 0 || entry@ <= 0 {
        Some(None)
    } else {
        match price_away(entry, exit_side(size), bps_fraction(config.tp_relax_floor_bps as int)) {
            None => None,
            Some(price) => Some(
                if relaxed_exit_rests(ctx, price) {
                    Some(Price(price))
                } else {
                    None
                },
            ),
        }
    }
}

/// The relaxed exit to post on this event; the inner `None` is where the exit is
/// not relaxed or rests already.
pub open spec fn relaxation(config: MicroMeanReversionConfig, ctx: StrategyContext, mid: Option<Price>)
    -> Option<Option<Seq<Action>>> {
    let size = ctx.position.size.0;
    match mid {
        None => Some(None),
        Some(mid) => if config.tp_relax_trigger_bps == 0 {
            Some(None)
        } else {
            match adverse_move(ctx, mid) {
                None => None,
                Some(adverse) => if adverse@ < whole(config.tp_relax_trigger_bps as int)@ {
                    Some(None)
                } else {
                    match relaxed_exit(config, ctx) {
                        None => None,
                        Some(None) => Some(None),
                        Some(Some(price)) => if resting_at(
                            ctx.open_quotes@,
                            exit_side(size),
                            price.0,
                        ) {
                            Some(None)
                        } else {
                            Some(
                                Some(
                                    seq![
                                        Action::CancelAll,
                                        Action::Quote(
                                            maker_order(
                                                *ctx.symbol,
                                                exit_side(size),
                                                price.0,
                                                absolute(size),
                                            ),
                                        ),
                                    ],
                                ),
                            )
                        },
                    }
                },
            }
        },
    }
}

/// Whether the trade that triggers an entry on `side` swept the touch.
pub open spec fn swept(ctx: StrategyContext, side: Side, trade: Price) -> bool {
    match side {
        Side::Ask => ctx.latest_book.asks@.len() == 0 || trade.0@
            >= ctx.latest_book.asks@[0].price.0@,
        Side::Bid => ctx.latest_book.bids@.len() == 0 || trade.0@
            <= ctx.latest_book.bids@[0].price.0@,
    }
}

/// Whether an entry on `side` would add to a position that is too far adverse.
pub open spec fn add_blocked(
    config: MicroMeanReversionConfig,
    ctx: StrategyContext,
    mid: Price,
    side: Side,
) -> Option<bool> {
    let size = ctx.position.size.0;
    let same_side = match side {
        Side::Ask => size@ < 0,
        Side::Bid => size@ > 0,
    };
    if config.add_block_bps == 0 || !same_side {
        Some(false)
    } else {
        match adverse_move(ctx, mid) {
            None => None,
            Some(adverse) => Some(adverse@ >= whole(config.add_block_bps as int)@),
        }
    }
}

/// A triggered entry on `side`, where every gate is open.
pub open spec fn triggered_entry(
    state: MicroMeanReversion,
    ctx: StrategyContext,
    mid: Price,
    trade: Price,
    side: Side,
) -> Option<(MicroMeanReversion, Seq<Action>)> {
    if state.config.confirm_touch && !swept(ctx, side, trade) {
        Some((state, Seq::empty()))
    } else {
        match add_blocked(state.config, ctx, mid, side) {
            None => None,
            Some(true) => Some((state, Seq::empty())),
            Some(false) => match throttled(state, ctx.now.0, side) {
                None => None,
                Some(true) => Some((state, Seq::empty())),
                Some(false) => if open_on(ctx.open_quotes@, side) >= state.config.max_open_entries {
                    Some((state, Seq::empty()))
                } else {
                    match entry_action(state.config, ctx, mid, side) {
                        None => None,
                        Some(action) => Some((entered(state, ctx.now.0, side), seq![action])),
                    }
                },
            },
        }
    }
}

/// A trade against the mid.
pub open spec fn trade_step(state: MicroMeanReversion, ctx: StrategyContext, mid: Price, trade: Price)
    -> Option<(MicroMeanReversion, Seq<Action>)> {
    let trigger = whole(state.config.trigger_bps as int);
    if mid.0@ <= 0 {
        Some((state, Seq::empty()))
    } else {
        match times(over(difference(trade.0, mid.0), Some(mid.0)), Some(whole(10_000))) {
            None => None,
            Some(move_bps) => if move_bps@ >= trigger@ {
                triggered_entry(state, ctx, mid, trade, Side::Ask)
            } else if move_bps@ <= negated(trigger)@ {
                triggered_entry(state, ctx, mid, trade, Side::Bid)
            } else {
                Some((state, Seq::empty()))
            },
        }
    }
}

/// The exit after a full fill: everything is cancelled and one exit placed, away
/// from the blended cost.
pub open spec fn exit_step(state: MicroMeanReversion, ctx: StrategyContext, fill: Fill) -> Option<
    (MicroMeanReversion, Seq<Action>),
> {
    let anchor = if ctx.position.avg_entry.0@ > 0 {
        ctx.position.avg_entry.0
    } else {
        fill.price.0
    };
    let side = opposite(fill.side);
    match price_away(anchor, side, bps_fraction(state.config.exit_bps as int)) {
        None => None,
        Some(price) => match notional_quote(state.config, *ctx.symbol, side, price) {
            None => None,
            Some(exit) => Some((state, seq![Action::CancelAll, exit])),
        },
    }
}

impl MicroMeanReversion {
    fn make_quote(&self, symbol: &Symbol, side: Side, price: Decimal) -> (result: Option<Action>)
        ensures
            result == notional_quote(self.config, *symbol, side, price),
    {
        let size = self.config.notional_per_order.checked_div(price)?;
        Some(Action::Quote(make_post_only_intent(symbol, side, Price(price), Size(size))))
    }

    fn entry_quote(&self, ctx: &StrategyContext<'_>, mid: Price, side: Side) -> (result: Option<
        Action,
    >)
        ensures
            result == entry_action(self.config, *ctx, mid, side),
    {
        let gap = Decimal::whole(self.config.entry_bps as i64).checked_div(
            Decimal::whole(10_000),
        )?;
        let mut price = try_price_away(mid.0, side, gap)?;
        if ctx.latest_book.bids.len() > 0 && ctx.latest_book.asks.len() > 0 {
            let bid = ctx.latest_book.bids[0].price.0;
            let ask = ctx.latest_book.asks[0].price.0;
            match side {
                Side::Ask => {
                    if price.is_at_most(bid) {
                        price = ask;
                    }
                },
                Side::Bid => {
                    if price.is_at_least(ask) {
                        price = bid;
                    }
                },
            }
        }
        self.make_quote(ctx.symbol, side, price)
    }

    fn open_entries(open: &[(QuoteId, QuoteIntent)], side: Side) -> (result: usize)
        ensures
            result == open_on(open@, side),
    {
        let mut count: usize = 0;
        let mut i: usize = 0;
        while i < open.len()
            invariant
                i <= open@.len(),
                count <= i,
                count == open_on(open@.take(i as int), side),
            decreases open@.len() - i,
        {
            assert(open@.take(i + 1).drop_last() =~= open@.take(i as int));
            if open[i].1.side == side {
                count = count + 1;
            }
            i = i + 1;
        }
        assert(open@.take(i as int) =~= open@);
        count
    }

    fn rests_at(open: &[(QuoteId, QuoteIntent)], side: Side, price: Decimal) -> (result: bool)
        ensures
            result == resting_at(open@, side, price),
    {
        let mut i: usize = 0;
        while i < open.len()
            invariant
                i <= open@.len(),
                forall|k: int|
                    0 <= k < i ==> !((#[trigger] open@[k]).1.side == side && open@[k].1.price.0@
                        == price@),
            decreases open@.len() - i,
        {
            if open[i].1.side == side && open[i].1.price.0.equals(price) {
                assert(open@[i as int].1.side == side);
                return true;
            }
            i = i + 1;
        }
        false
    }

    fn entry_throttled(&self, now_ns: u64, side: Side) -> (result: Option<bool>)
        ensures
            result == throttled(*self, now_ns, side),
    {
        if self.config.entry_cooldown_ms == 0 {
            return Some(false);
        }
        let last = match side {
            Side::Ask => self.last_ask_entry_ns,
            Side::Bid => self.last_bid_entry_ns,
        };
        match last {
            None => Some(false),
            Some(last) => {
                let cooldown: u64 = self.config.entry_cooldown_ms.checked_mul(1_000_000)?;
                Some(now_ns.saturating_sub(last) < cooldown)
            },
        }
    }

    fn record_entry(&mut self, now_ns: u64, side: Side)
        ensures
            *final(self) == entered(*old(self), now_ns, side),
    {
        match side {
            Side::Ask => {
                self.last_ask_entry_ns = Some(now_ns);
            },
            Side::Bid => {
                self.last_bid_entry_ns = Some(now_ns);
            },
        }
    }

    fn adverse_bps(&self, ctx: &StrategyContext<'_>, mid: Price) -> (result: Option<Decimal>)
        ensures
            result == adverse_move(*ctx, mid),
            result is Some && ctx.position.size.0@ != 0 && ctx.position.avg_entry.0@ > 0
                && exact_difference(mid.0, ctx.position.avg_entry.0) && measures_exactly(
                difference(mid.0, ctx.position.avg_entry.0)->0,
                ctx.position.avg_entry.0,
            ) ==> {
                let entry = ctx.position.avg_entry.0@;
                &&& ctx.position.size.0@ > 0 ==> reads_bps(entry - mid.0@, entry, result->0@)
                &&& ctx.position.size.0@ < 0 ==> reads_bps(mid.0@ - entry, entry, result->0@)
            },
    {
        let size = ctx.position.size.0;
        let entry = ctx.position.avg_entry.0;
        if size.is_zero() || !entry.is_positive() {
            return Some(Decimal::zero());
        }
        let moved = mid.0.checked_sub(entry)?;
        let bps = try_bps_of(moved, entry)?;
        proof {
            if measures_exactly(moved, entry) {
                lemma_reads_bps_turned(moved@, entry@, bps@);
            }
        }
        if size.is_positive() {
            Some(bps.negate())
        } else {
            Some(bps)
        }
    }

    fn relaxed_exit_price(&self, ctx: &StrategyContext<'_>) -> (result: Option<Option<Price>>)
        ensures
            result == relaxed_exit(self.config, *ctx),
    {
        let size = ctx.position.size.0;
        let entry = ctx.position.avg_entry.0;
        if size.is_zero() || !entry.is_positive() {
            return Some(None);
        }
        let gap = Decimal::whole(self.config.tp_relax_floor_bps as i64).checked_div(
            Decimal::whole(10_000),
        )?;
        let long = size.is_positive();
        let side = if long {
            Side::Ask
        } else {
            Side::Bid
        };
        let price = try_price_away(entry, side, gap)?;
        if ctx.latest_book.bids.len() == 0 || ctx.latest_book.asks.len() == 0 {
            return Some(None);
        }
        let bid = ctx.latest_book.bids[0].price.0;
        let ask = ctx.latest_book.asks[0].price.0;
        let rests = if long {
            price.is_more(entry) && price.is_more(bid) && ask.is_more(price)
        } else {
            price.is_less(entry) && price.is_less(ask) && bid.is_less(price)
        };
        if rests {
            Some(Some(Price(price)))
        } else {
            Some(None)
        }
    }

    fn relax(&self, ctx: &StrategyContext<'_>, mid: Option<Price>) -> (result: Option<
        Option<Vec<Action>>,
    >)
        ensures
            match relaxation(self.config, *ctx, mid) {
                None => result is None,
                Some(None) => result == Some(None::<Vec<Action>>),
                Some(Some(actions)) => result is Some && result->0 is Some && (result->0)->0@
                    =~= actions,
            },
    {
        let mid = match mid {
            Some(mid) => mid,
            None => {
                return Some(None);
            },
        };
        if self.config.tp_relax_trigger_bps == 0 {
            return Some(None);
        }
        let adverse = self.adverse_bps(ctx, mid)?;
        if adverse.is_less(Decimal::whole(self.config.tp_relax_trigger_bps as i64)) {
            return Some(None);
        }
        let price = match self.relaxed_exit_price(ctx)? {
            Some(price) => price,
            None => {
                return Some(None);
            },
        };
        let size = ctx.position.size.0;
        let side = if size.is_positive() {
            Side::Ask
        } else {
            Side::Bid
        };
        if Self::rests_at(ctx.open_quotes, side, price.0) {
            return Some(None);
        }
        let exit = Action::Quote(make_post_only_intent(ctx.symbol, side, price, Size(size.abs())));
        Some(Some(vec![Action::CancelAll, exit]))
    }

    fn is_add_blocked(&self, ctx: &StrategyContext<'_>, mid: Price, side: Side) -> (result: Option<
        bool,
    >)
        ensures
            result == add_blocked(self.config, *ctx, mid, side),
            ctx.position.size.0@ == 0 || self.config.add_block_bps == 0 ==> result == Some(false),
            result is Some && self.config.add_block_bps > 0 && ctx.position.avg_entry.0@ > 0
                && exact_difference(mid.0, ctx.position.avg_entry.0) && measures_exactly(
                difference(mid.0, ctx.position.avg_entry.0)->0,
                ctx.position.avg_entry.0,
            ) ==> {
                let entry = ctx.position.avg_entry.0@;
                let bps = self.config.add_block_bps as int;
                &&& side is Bid && ctx.position.size.0@ > 0 ==> fires_at(
                    entry - mid.0@,
                    entry,
                    bps,
                    result->0,
                )
                &&& side is Ask && ctx.position.size.0@ < 0 ==> fires_at(
                    mid.0@ - entry,
                    entry,
                    bps,
                    result->0,
                )
                &&& side is Bid && ctx.position.size.0@ <= 0 ==> !result->0
                &&& side is Ask && ctx.position.size.0@ >= 0 ==> !result->0
            },
    {
        let size = ctx.position.size.0;
        let same_side = match side {
            Side::Ask => size.is_negative(),
            Side::Bid => size.is_positive(),
        };
        if self.config.add_block_bps == 0 || !same_side {
            return Some(false);
        }
        let adverse = self.adverse_bps(ctx, mid)?;
        proof {
            let entry = ctx.position.avg_entry.0;
            let bps = self.config.add_block_bps as int;
            if entry@ > 0 && exact_difference(mid.0, entry) && measures_exactly(
                difference(mid.0, entry)->0,
                entry,
            ) {
                let part = if size@ > 0 {
                    entry@ - mid.0@
                } else {
                    mid.0@ - entry@
                };
                lemma_fires_at(part, entry@, adverse@, bps);
            }
        }
        Some(adverse.is_at_least(Decimal::whole(self.config.add_block_bps as i64)))
    }

    fn try_entry(&mut self, ctx: &StrategyContext<'_>, mid: Price, trade: Price, side: Side)
        -> (result: Option<Vec<Action>>)
        ensures
            follows(triggered_entry(*old(self), *ctx, mid, trade, side), result, *final(self)),
    {
        if self.config.confirm_touch {
            let missed = match side {
                Side::Ask => ctx.latest_book.asks.len() > 0 && trade.0.is_less(
                    ctx.latest_book.asks[0].price.0,
                ),
                Side::Bid => ctx.latest_book.bids.len() > 0 && trade.0.is_more(
                    ctx.latest_book.bids[0].price.0,
                ),
            };
            if missed {
                return Some(Vec::new());
            }
        }
        if self.is_add_blocked(ctx, mid, side)? {
            return Some(Vec::new());
        }
        if self.entry_throttled(ctx.now.0, side)? {
            return Some(Vec::new());
        }
        let open: usize = Self::open_entries(ctx.open_quotes, side);
        if open as u64 >= self.config.max_open_entries as u64 {
            return Some(Vec::new());
        }
        self.record_entry(ctx.now.0, side);
        let action = self.entry_quote(ctx, mid, side)?;
        Some(vec![action])
    }

    fn on_trade(&mut self, ctx: &StrategyContext<'_>, mid: Price, trade: Price) -> (result: Option<
        Vec<Action>,
    >)
        ensures
            follows(trade_step(*old(self), *ctx, mid, trade), result, *final(self)),
    {
        if !mid.0.is_positive() {
            return Some(Vec::new());
        }
        let move_bps = trade.0.checked_sub(mid.0)?.checked_div(mid.0)?.checked_mul(
            Decimal::whole(10_000),
        )?;
        let trigger = Decimal::whole(self.config.trigger_bps as i64);
        if move_bps.is_at_least(trigger) {
            self.try_entry(ctx, mid, trade, Side::Ask)
        } else if move_bps.is_at_most(trigger.negate()) {
            self.try_entry(ctx, mid, trade, Side::Bid)
        } else {
            Some(Vec::new())
        }
    }

    fn on_full_fill(&mut self, ctx: &StrategyContext<'_>, fill: &Fill) -> (result: Option<
        Vec<Action>,
    >)
        ensures
            follows(exit_step(*old(self), *ctx, *fill), result, *final(self)),
    {
        let anchor = if ctx.position.avg_entry.0.is_positive() {
            ctx.position.avg_entry.0
        } else {
            fill.price.0
        };
        let gap = Decimal::whole(self.config.exit_bps as i64).checked_div(Decimal::whole(10_000))?;
        let side = fill.side.opposite();
        let price = try_price_away(anchor, side, gap)?;
        let exit = self.make_quote(ctx.symbol, side, price)?;
        Some(vec![Action::CancelAll, exit])
    }
}

impl Strategy for MicroMeanReversion {
    type Config = MicroMeanReversionConfig;

    open spec fn initial(config: MicroMeanReversionConfig) -> Option<MicroMeanReversion> {
        Some(MicroMeanReversion { config, last_ask_entry_ns: None, last_bid_entry_ns: None })
    }

    open spec fn event_step(
        state: MicroMeanReversion,
        ctx: StrategyContext,
        event: MarketEvent,
    ) -> Option<(MicroMeanReversion, Seq<Action>)> {
        match mid_strict(*ctx.latest_book) {
            None => None,
            Some(mid) => match relaxation(state.config, ctx, mid) {
                None => None,
                Some(Some(actions)) => Some((state, actions)),
                Some(None) => match event {
                    MarketEvent::Trade { price, .. } => match mid {
                        None => Some((state, Seq::empty())),
                        Some(mid) => trade_step(state, ctx, mid, price),
                    },
                    MarketEvent::Fill(fill) => if fill.is_full {
                        exit_step(state, ctx, fill)
                    } else {
                        Some((state, Seq::empty()))
                    },
                    _ => Some((state, Seq::empty())),
                },
            },
        }
    }

    open spec fn rejection_step(
        state: MicroMeanReversion,
        ctx: StrategyContext,
        intent: QuoteIntent,
        reason: Seq<char>,
    ) -> Option<(MicroMeanReversion, Seq<Action>)> {
        let crossed = mentions(reason, "-5022"@) || mentions(
            reason,
            "could not be executed as maker"@,
        );
        match mid_strict(*ctx.latest_book) {
            None => None,
            Some(None) => Some((state, Seq::empty())),
            Some(Some(mid)) => {
                let waits = if !crossed {
                    Some(false)
                } else if state.config.entry_cooldown_ms == 0 {
                    Some(true)
                } else {
                    throttled(state, ctx.now.0, intent.side)
                };
                match waits {
                    None => None,
                    Some(true) => Some((state, Seq::empty())),
                    Some(false) => match entry_action(state.config, ctx, mid, intent.side) {
                        None => None,
                        Some(action) => Some(
                            (
                                if crossed {
                                    entered(state, ctx.now.0, intent.side)
                                } else {
                                    state
                                },
                                seq![action],
                            ),
                        ),
                    },
                }
            },
        }
    }

    fn try_new(config: MicroMeanReversionConfig) -> (result: Option<MicroMeanReversion>) {
        Some(MicroMeanReversion { config, last_ask_entry_ns: None, last_bid_entry_ns: None })
    }

    fn name(&self) -> (result: &str)
        ensures
            result@ == "micro-mean-reversion"@,
    {
        "micro-mean-reversion"
    }

    fn try_on_event(&mut self, ctx: &StrategyContext<'_>, event: &MarketEvent) -> (result: Option<
        Vec<Action>,
    >) {
        let mid = compute_mid_strict(ctx.latest_book)?;
        if let Some(actions) = self.relax(ctx, mid)? {
            return Some(actions);
        }
        match event {
            MarketEvent::Trade { price, .. } => match mid {
                None => Some(Vec::new()),
                Some(mid) => self.on_trade(ctx, mid, *price),
            },
            MarketEvent::Fill(fill) => {
                if fill.is_full {
                    self.on_full_fill(ctx, fill)
                } else {
                    Some(Vec::new())
                }
            },
            _ => Some(Vec::new()),
        }
    }

    fn try_on_quote_rejected(
        &mut self,
        ctx: &StrategyContext<'_>,
        intent: &QuoteIntent,
        reason: &str,
    ) -> (result: Option<Vec<Action>>) {
        let mid = match compute_mid_strict(ctx.latest_book)? {
            None => {
                return Some(Vec::new());
            },
            Some(mid) => mid,
        };
        if text_contains(reason, "-5022") || text_contains(
            reason,
            "could not be executed as maker",
        ) {
            if self.config.entry_cooldown_ms == 0 {
                return Some(Vec::new());
            }
            if self.entry_throttled(ctx.now.0, intent.side)? {
                return Some(Vec::new());
            }
            self.record_entry(ctx.now.0, intent.side);
        }
        let action = self.entry_quote(ctx, mid, intent.side)?;
        Some(vec![action])
    }

    fn on_notional_updated(
        &mut self,
        ctx: &StrategyContext<'_>,
        notional_per_order: Decimal,
    ) -> (result: Vec<Action>)
        ensures
            result@ == Seq::<Action>::empty(),
            *final(self) == (if notional_per_order@ > 0 {
                MicroMeanReversion {
                    config: MicroMeanReversionConfig { notional_per_order, ..old(self).config },
                    ..*old(self)
                }
            } else {
                *old(self)
            }),
    {
        if notional_per_order.is_positive() {
            self.config.notional_per_order = notional_per_order;
        }
        Vec::new()
    }
}

/// The relaxed exit is always a profit over the entry and never crosses the book.
pub proof fn law_relaxed_exit_is_a_passive_profit(
    config: MicroMeanReversionConfig,
    ctx: StrategyContext,
)
    ensures
        relaxed_exit(config, ctx) matches Some(Some(price)) ==> {
            let entry = ctx.position.avg_entry.0;
            &&& ctx.position.size.0@ > 0 ==> price.0@ > entry@ && price.0@
                > ctx.latest_book.bids@[0].price.0@
            &&& ctx.position.size.0@ < 0 ==> price.0@ < entry@ && price.0@
                < ctx.latest_book.asks@[0].price.0@
        },
{
}

/// On a book that is not crossed, an entry never takes liquidity.
pub proof fn law_entries_rest(
    config: MicroMeanReversionConfig,
    ctx: StrategyContext,
    mid: Price,
    side: Side,
)
    requires
        entry_price(config, ctx, mid, side) is Some,
        ctx.latest_book.bids@.len() > 0,
        ctx.latest_book.asks@.len() > 0,
        ctx.latest_book.bids@[0].price.0@ < ctx.latest_book.asks@[0].price.0@,
    ensures
        side == Side::Ask ==> (entry_price(config, ctx, mid, side)->0)@
            > ctx.latest_book.bids@[0].price.0@,
        side == Side::Bid ==> (entry_price(config, ctx, mid, side)->0)@
            < ctx.latest_book.asks@[0].price.0@,
{
}

/// After an entry on a side, no further entry is triggered there before the
/// cooldown has passed.
pub proof fn law_entries_are_spaced(
    state: MicroMeanReversion,
    ctx: StrategyContext,
    mid: Price,
    trade: Price,
    side: Side,
    entered_at: u64,
)
    requires
        state.config.entry_cooldown_ms > 0,
        triggered_entry(entered(state, entered_at, side), ctx, mid, trade, side) is Some,
        elapsed(ctx.now.0, entered_at) < state.config.entry_cooldown_ms * 1_000_000,
    ensures
        (triggered_entry(entered(state, entered_at, side), ctx, mid, trade, side)->0).1 == Seq::<
            Action,
        >::empty(),
{
}

/// A position that has moved against its entry by the configured distance is not
/// added to: a trade never calls for an order on its side.
pub proof fn law_losing_position_is_not_grown(
    state: MicroMeanReversion,
    ctx: StrategyContext,
    event: MarketEvent,
    mid: Price,
    adverse: Decimal,
)
    requires
        event is Trade,
        state.config.add_block_bps > 0,
        ctx.position.size.0@ != 0,
        mid_strict(*ctx.latest_book) == Some(Some(mid)),
        adverse_move(ctx, mid) == Some(adverse),
        adverse@ >= whole(state.config.add_block_bps as int)@,
    ensures
        MicroMeanReversion::event_step(state, ctx, event) matches Some((_, actions))
            ==> !quotes_on(actions, opposite(exit_side(ctx.position.size.0))),
{
}

/// With the confirmation on, only a trade at or through the touch calls for an entry.
pub proof fn law_entries_confirm_the_touch(
    state: MicroMeanReversion,
    ctx: StrategyContext,
    mid: Price,
    trade: Price,
    side: Side,
)
    requires
        state.config.confirm_touch,
        triggered_entry(state, ctx, mid, trade, side) is Some,
        (triggered_entry(state, ctx, mid, trade, side)->0).1.len() > 0,
    ensures
        swept(ctx, side, trade),
{
}

/// No event and no rejection calls for an order in another instrument.
pub proof fn law_quotes_its_instrument(
    state: MicroMeanReversion,
    ctx: StrategyContext,
    event: MarketEvent,
    intent: QuoteIntent,
    reason: Seq<char>,
)
    ensures
        MicroMeanReversion::event_step(state, ctx, event) matches Some((_, actions)) ==> keeps_to(
            actions,
            *ctx.symbol,
        ),
        MicroMeanReversion::rejection_step(state, ctx, intent, reason) matches Some((_, actions))
            ==> keeps_to(actions, *ctx.symbol),
{
}

/// A trade far enough above the mid calls for an ask, one as far below it for a bid, and one in
/// between for nothing.
pub proof fn law_entries_fade_the_trade(
    state: MicroMeanReversion,
    ctx: StrategyContext,
    mid: Price,
    trade: Price,
    moved: Decimal,
    move_bps: Decimal,
)
    requires
        mid.0@ > 0,
        difference(trade.0, mid.0) == Some(moved),
        times(quotient(moved, mid.0), Some(whole(10_000))) == Some(move_bps),
    ensures
        trade_step(state, ctx, mid, trade) matches Some((next, actions)) ==> {
            let trigger = whole(state.config.trigger_bps as int);
            &&& quotes_on(actions, Side::Ask) ==> move_bps@ >= trigger@
            &&& quotes_on(actions, Side::Bid) ==> move_bps@ <= negated(trigger)@
            &&& negated(trigger)@ < move_bps@ < trigger@ ==> actions.len() == 0 && next == state
        },
{
}

/// An entry is quoted `entry_bps` beyond the mid, on its own touch where that would cross.
pub proof fn law_entry_stands_off_the_mid(
    config: MicroMeanReversionConfig,
    ctx: StrategyContext,
    mid: Price,
    above: Decimal,
    below: Decimal,
)
    requires
        times(
            Some(mid.0),
            plus(Some(whole(1)), quotient(whole(config.entry_bps as int), whole(10_000))),
        ) == Some(above),
        times(
            Some(mid.0),
            minus(Some(whole(1)), quotient(whole(config.entry_bps as int), whole(10_000))),
        ) == Some(below),
        ctx.latest_book.bids@.len() > 0,
        ctx.latest_book.asks@.len() > 0,
    ensures
        ({
            let (bid, ask) = (
                ctx.latest_book.bids@[0].price.0,
                ctx.latest_book.asks@[0].price.0,
            );
            &&& above@ > bid@ ==> entry_price(config, ctx, mid, Side::Ask) == Some(above)
            &&& above@ <= bid@ ==> entry_price(config, ctx, mid, Side::Ask) == Some(ask)
            &&& below@ < ask@ ==> entry_price(config, ctx, mid, Side::Bid) == Some(below)
            &&& below@ >= ask@ ==> entry_price(config, ctx, mid, Side::Bid) == Some(bid)
        }),
{
}

/// A full fill cancels everything and quotes one exit on the other side, `exit_bps` beyond the
/// blended cost.
pub proof fn law_exit_is_beyond_the_cost(
    state: MicroMeanReversion,
    ctx: StrategyContext,
    fill: Fill,
)
    ensures
        exit_step(state, ctx, fill) matches Some((next, actions)) ==> {
            let away = quotient(whole(state.config.exit_bps as int), whole(10_000));
            let order = actions[1]->Quote_0;
            let cost = if ctx.position.avg_entry.0@ > 0 {
                ctx.position.avg_entry.0
            } else {
                fill.price.0
            };
            &&& next == state && actions.len() == 2 && actions[0] is CancelAll && actions[1] is Quote
            &&& fill.side is Bid ==> order.side is Ask && Some(order.price.0) == times(
                Some(cost),
                plus(Some(whole(1)), away),
            )
            &&& fill.side is Ask ==> order.side is Bid && Some(order.price.0) == times(
                Some(cost),
                minus(Some(whole(1)), away),
            )
            &&& Some(order.size.0) == quotient(state.config.notional_per_order, order.price.0)
        },
{
}

/// The exit is relaxed only once the mid has moved against the position by the trigger, to
/// `tp_relax_floor_bps` beyond the entry and for the whole position.
pub proof fn law_relaxes_after_an_adverse_move(
    config: MicroMeanReversionConfig,
    ctx: StrategyContext,
    mid: Price,
    adverse: Decimal,
)
    requires
        adverse_move(ctx, mid) == Some(adverse),
    ensures
        relaxation(config, ctx, Some(mid)) matches Some(Some(actions)) ==> {
            let order = actions[1]->Quote_0;
            let away = quotient(whole(config.tp_relax_floor_bps as int), whole(10_000));
            &&& config.tp_relax_trigger_bps > 0
            &&& adverse@ >= whole(config.tp_relax_trigger_bps as int)@
            &&& actions.len() == 2 && actions[0] is CancelAll && actions[1] is Quote
            &&& order.size.0 == absolute(ctx.position.size.0)
            &&& ctx.position.size.0@ > 0 ==> order.side is Ask && Some(order.price.0) == times(
                Some(ctx.position.avg_entry.0),
                plus(Some(whole(1)), away),
            )
            &&& ctx.position.size.0@ < 0 ==> order.side is Bid && Some(order.price.0) == times(
                Some(ctx.position.avg_entry.0),
                minus(Some(whole(1)), away),
            )
        },
        relaxation(config, ctx, None) == Some(None::<Seq<Action>>),
{
}

/// An entry on one side does not hold up the other.
pub proof fn law_sides_are_throttled_apart(
    state: MicroMeanReversion,
    now_ns: u64,
    entered_at: u64,
    side: Side,
)
    ensures
        throttled(entered(state, entered_at, side), now_ns, opposite(side)) == throttled(
            state,
            now_ns,
            opposite(side),
        ),
        now_ns - entered_at >= state.config.entry_cooldown_ms * 1_000_000 && throttled(
            entered(state, entered_at, side),
            now_ns,
            side,
        ) is Some ==> throttled(entered(state, entered_at, side), now_ns, side) == Some(false),
{
}

/// No more entries than allowed are open on a side, and a quote counts on its own side alone.
pub proof fn law_open_entries_are_capped(
    state: MicroMeanReversion,
    ctx: StrategyContext,
    mid: Price,
    trade: Price,
    side: Side,
    quote: (QuoteId, QuoteIntent),
)
    ensures
        open_on(ctx.open_quotes@, side) >= state.config.max_open_entries ==> (triggered_entry(
            state,
            ctx,
            mid,
            trade,
            side,
        ) matches Some((next, actions)) ==> actions.len() == 0 && next == state),
        open_on(ctx.open_quotes@.push(quote), side) == open_on(ctx.open_quotes@, side) + (
        if quote.1.side == side {
            1int
        } else {
            0
        }),
{
    assert(ctx.open_quotes@.push(quote).drop_last() =~= ctx.open_quotes@);
}

/// The adverse move of a position is that of the mid below the entry of a long or above that of a
/// short, in basis points of it.
pub proof fn law_adverse_move_is_against_the_position(
    ctx: StrategyContext,
    mid: Price,
    moved: Decimal,
    moved_bps: Decimal,
    bps: int,
)
    requires
        ctx.position.size.0@ != 0,
        difference(mid.0, ctx.position.avg_entry.0) == Some(moved),
        moved@ == mid.0@ - ctx.position.avg_entry.0@,
        reads_exactly(moved, ctx.position.avg_entry.0, moved_bps),
        negated(moved_bps)@ == -moved_bps@,
    ensures
        adverse_move(ctx, mid) matches Some(adverse) && {
            let entry = ctx.position.avg_entry.0@;
            &&& ctx.position.size.0@ > 0 ==> (adverse@ >= bps * pow10(28) <==> (entry - mid.0@)
                * 10_000 >= bps * entry)
            &&& ctx.position.size.0@ < 0 ==> (adverse@ >= bps * pow10(28) <==> (mid.0@ - entry)
                * 10_000 >= bps * entry)
        },
{
    let entry = ctx.position.avg_entry.0;
    lemma_reads_exactly(moved, entry, moved_bps, bps);
    lemma_reads_exactly(moved, entry, moved_bps, -bps);
    assert((-bps) * pow10(28) == -(bps * pow10(28))) by (nonlinear_arith);
    assert((-bps) * entry@ == -(bps * entry@)) by (nonlinear_arith);
}

/// A sweep of the touch is a trade at it or through it, on the side that is to be faded.
pub proof fn law_sweeps_reach_the_touch(ctx: StrategyContext, trade: Price)
    requires
        ctx.latest_book.bids@.len() > 0,
        ctx.latest_book.asks@.len() > 0,
    ensures
        swept(ctx, Side::Ask, trade) <==> trade.0@ >= ctx.latest_book.asks@[0].price.0@,
        swept(ctx, Side::Bid, trade) <==> trade.0@ <= ctx.latest_book.bids@[0].price.0@,
{
}

} // verus!
