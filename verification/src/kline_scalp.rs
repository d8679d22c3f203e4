//! Momentum-aware spread scalping.
//!
//! Quotes are skewed by the momentum of the mid over the last few requotes: in an
//! up-trend the ask tightens and the bid widens, in a down-trend the other way
//! round, otherwise both are symmetric.

use crate::decimal::{
    difference, exact_difference, greater, lemma_parts, lemma_pow10_positive,
    lemma_quotient_keeps_order, lemma_whole, lesser, mantissa_of, negated, over, pow10, product,
    quotient, scale_of, times, whole, Decimal,
};
use crate::market::{
    maker_order, opposite, Fill, MarketEvent, Price, QuoteIntent, Side, Size, Snapshot, Symbol,
    Timestamp,
};
use crate::quoting::{
    lemma_reaches_bps, lemma_reads_bps_turned, lemma_reads_exactly, make_post_only_intent,
    measures_exactly, midpoint, newest, price_away, reaches_bps, reads_exactly, try_bps_of,
    try_midpoint, try_price_away,
};
use crate::scalping::{
    at_cap, bumped_size, do_targets_stand, has_interval_passed, inside_targets, interval_passed,
    inventory_multipliers, is_at_cap, is_profit_reached, is_within_cap, missing_size, multipliers,
    on_side, profit_reached, targets_stand, try_bumped_size, try_inside_targets, try_missing_size,
    within_cap,
};
use crate::strategy::{
    follows, keeps_to, lemma_keeps_to_joined, quotes_on, Action, Strategy, StrategyContext,
};
use std::collections::VecDeque;
use vstd::prelude::*;

verus! {

/// Configuration for [`KlineScalp`].
#[derive(Clone, Copy, Debug)]
pub struct KlineScalpConfig {
    /// Fiat notional per order.
    pub notional_per_order: Decimal,
    /// Venue tick size (price increment).
    pub tick_size: Decimal,
    /// Venue lot step size (quantity rounding).
    pub step_size: Decimal,
    /// Minimum order notional (price x size) required by the venue.
    pub min_notional: Decimal,
    /// Minimum market spread in bps required to quote.
    pub min_spread_bps: Decimal,
    /// Fixed requote interval in ms.
    pub requote_interval_ms: u64,
    /// Max position in quote currency before one-sided quoting kicks in. 0
    /// disables.
    pub max_position_usdt: Decimal,
    /// Unrealized profit in quote currency above which only the reducing side is
    /// quoted, at the mid. 0 disables.
    pub take_profit_usdt: Decimal,
    /// Requotes to look back for momentum. 0 disables the skew.
    pub momentum_lookback: u32,
    /// Change of the mid over the lookback that counts as momentum, in bps.
    pub momentum_bps_threshold: Decimal,
    /// How much further the defensive side is quoted, and nearer the aggressive
    /// one.
    pub momentum_skew_mult: Decimal,
}

/// The three momentum regimes.
#[derive(Clone, Copy, Debug, PartialEq, Eq, Structural)]
pub enum MomentumSignal {
    /// The mid is rising.
    Up,
    /// The mid is falling.
    Down,
    /// Neither.
    Flat,
}

/// Momentum-aware spread scalping strategy.
pub struct KlineScalp {
    /// Settings.
    pub config: KlineScalpConfig,
    /// Bid target of the last requote.
    pub last_bid: Option<Price>,
    /// Ask target of the last requote.
    pub last_ask: Option<Price>,
    /// Time of the last requote or withdrawal.
    pub last_requote_ts: Option<Timestamp>,
    /// Whether any quote is believed live.
    pub quotes_live: bool,
    /// Mids at the last requotes, newest at the back.
    pub mid_prices: VecDeque<Price>,
    /// Momentum at the last requote.
    pub momentum: MomentumSignal,
}

/// Mathematical content of a [`KlineScalp`].
#[verifier::ext_equal]
pub struct KlineState {
    /// Settings.
    pub config: KlineScalpConfig,
    /// Bid target of the last requote.
    pub last_bid: Option<Price>,
    /// Ask target of the last requote.
    pub last_ask: Option<Price>,
    /// Time of the last requote or withdrawal.
    pub last_requote_ts: Option<Timestamp>,
    /// Whether any quote is believed live.
    pub quotes_live: bool,
    /// Mids at the last requotes, newest last.
    pub mid_prices: Seq<Price>,
    /// Momentum at the last requote.
    pub momentum: MomentumSignal,
}

impl View for KlineScalp {
    type V = KlineState;

    open spec fn view(&self) -> KlineState {
        KlineState {
            config: self.config,
            last_bid: self.last_bid,
            last_ask: self.last_ask,
            last_requote_ts: self.last_requote_ts,
            quotes_live: self.quotes_live,
            mid_prices: self.mid_prices@,
            momentum: self.momentum,
        }
    }
}

/// The targets on a book; see [`inside_targets`].
pub open spec fn targets(config: KlineScalpConfig, snapshot: Snapshot) -> Option<
    Option<(Price, Price)>,
> {
    match inside_targets(config.tick_size, config.min_spread_bps, snapshot) {
        None => None,
        Some(None) => Some(None),
        Some(Some((bid, ask, _))) => Some(Some((bid, ask))),
    }
}

/// A quote of the configured notional.
pub open spec fn quote(
    config: KlineScalpConfig,
    symbol: Symbol,
    side: Side,
    price: Price,
    multiplier: Decimal,
) -> Option<Action> {
    match bumped_size(
        config.notional_per_order,
        price,
        multiplier,
        config.step_size,
        config.min_notional,
    ) {
        None => None,
        Some(size) => Some(Action::Quote(maker_order(symbol, side, price.0, size))),
    }
}

/// Momentum of some mids: the change from `momentum_lookback` requotes ago to the
/// newest, against the threshold.
pub open spec fn momentum_of(config: KlineScalpConfig, mids: Seq<Price>) -> Option<MomentumSignal> {
    let lookback = config.momentum_lookback as int;
    if lookback == 0 || mids.len() <= lookback {
        Some(MomentumSignal::Flat)
    } else {
        let current = mids.last().0;
        let past = mids[mids.len() - 1 - lookback].0;
        if past@ <= 0 || current@ <= 0 {
            Some(MomentumSignal::Flat)
        } else {
            match times(over(difference(current, past), Some(past)), Some(whole(10_000))) {
                None => None,
                Some(change_bps) => Some(
                    if change_bps@ > config.momentum_bps_threshold@ {
                        MomentumSignal::Up
                    } else if change_bps@ < negated(config.momentum_bps_threshold)@ {
                        MomentumSignal::Down
                    } else {
                        MomentumSignal::Flat
                    },
                ),
            }
        }
    }
}

/// Distance from the mid of a side under some momentum: the aggressive side nearer,
/// but no nearer than one bp, the defensive side further.
pub open spec fn skewed_bps(
    config: KlineScalpConfig,
    momentum: MomentumSignal,
    side: Side,
    base: Decimal,
) -> Option<Decimal> {
    if momentum == MomentumSignal::Flat || config.momentum_skew_mult@ <= whole(1)@ {
        Some(base)
    } else {
        let aggressive = (side == Side::Ask) == (momentum == MomentumSignal::Up);
        if aggressive {
            match quotient(base, config.momentum_skew_mult) {
                None => None,
                Some(near) => Some(greater(near, whole(1))),
            }
        } else {
            product(base, config.momentum_skew_mult)
        }
    }
}

/// Price of a side at its skewed distance from the mid.
pub open spec fn skewed_price(
    config: KlineScalpConfig,
    momentum: MomentumSignal,
    side: Side,
    mid: Decimal,
) -> Option<Decimal> {
    price_away(
        mid,
        side,
        over(skewed_bps(config, momentum, side, config.min_spread_bps), Some(whole(10_000))),
    )
}

/// How many mids are kept.
pub open spec fn kept_mids(config: KlineScalpConfig) -> int {
    let wanted = config.momentum_lookback + 1;
    if wanted > usize::MAX {
        usize::MAX as int
    } else if wanted < 2 {
        2
    } else {
        wanted
    }
}

/// The state once new targets are taken.
pub open spec fn retargeted(state: KlineState, bid: Price, ask: Price, ts: Timestamp) -> KlineState {
    KlineState {
        last_bid: Some(bid),
        last_ask: Some(ask),
        last_requote_ts: Some(ts),
        quotes_live: true,
        ..state
    }
}

/// The quote on a side where the cap allows it.
pub open spec fn capped_quote(
    config: KlineScalpConfig,
    ctx: StrategyContext,
    capped: bool,
    side: Side,
    price: Decimal,
) -> Option<Seq<Action>> {
    let (bid_mult, ask_mult) = multipliers(ctx.position.size.0);
    if !within_cap(ctx.position.size.0, capped, side) {
        Some(Seq::empty())
    } else {
        match quote(config, *ctx.symbol, side, Price(price), on_side(side, bid_mult, ask_mult)) {
            None => None,
            Some(action) => Some(seq![action]),
        }
    }
}

/// What a requote quotes around `mid`.
pub open spec fn requote_actions(state: KlineState, ctx: StrategyContext, mid: Decimal) -> Option<
    Seq<Action>,
> {
    let size = ctx.position.size.0;
    let c = state.config;
    match (
        skewed_price(c, state.momentum, Side::Bid, mid),
        skewed_price(c, state.momentum, Side::Ask, mid),
        at_cap(c.max_position_usdt, size, mid),
        profit_reached(c.take_profit_usdt, size, ctx.position.avg_entry.0, mid),
    ) {
        (Some(bid), Some(ask), Some(capped), Some(reached)) => if reached {
            let side = if size@ > 0 {
                Side::Ask
            } else {
                Side::Bid
            };
            match quote(c, *ctx.symbol, side, Price(mid), whole(1)) {
                None => None,
                Some(action) => Some(seq![Action::CancelAll, action]),
            }
        } else {
            match (
                capped_quote(c, ctx, capped, Side::Bid, bid),
                capped_quote(c, ctx, capped, Side::Ask, ask),
            ) {
                (Some(bids), Some(asks)) => Some(seq![Action::CancelAll] + bids + asks),
                _ => None,
            }
        },
        _ => None,
    }
}

/// A requote.
pub open spec fn requoted(
    state: KlineState,
    ctx: StrategyContext,
    bid: Price,
    ask: Price,
    ts: Timestamp,
) -> Option<(KlineState, Seq<Action>)> {
    match midpoint(bid.0, ask.0) {
        None => None,
        Some(mid) => {
            let mids = newest(state.mid_prices.push(Price(mid)), kept_mids(state.config));
            match momentum_of(state.config, mids) {
                None => None,
                Some(momentum) => {
                    let next = KlineState {
                        mid_prices: mids,
                        momentum,
                        ..retargeted(state, bid, ask, ts)
                    };
                    match requote_actions(next, ctx, mid) {
                        None => None,
                        Some(actions) => Some((next, actions)),
                    }
                },
            }
        },
    }
}

/// Forgetting the targets, and cancelling everything that is live.
pub open spec fn withdrawn(state: KlineState, ts: Timestamp) -> (KlineState, Seq<Action>) {
    (
        KlineState {
            last_bid: None,
            last_ask: None,
            last_requote_ts: Some(ts),
            quotes_live: false,
            ..state
        },
        if state.quotes_live {
            seq![Action::CancelAll]
        } else {
            Seq::empty()
        },
    )
}

/// A fill: the filled side is replaced and the other topped up.
pub open spec fn fill_step(state: KlineState, ctx: StrategyContext, fill: Fill) -> Option<
    (KlineState, Seq<Action>),
> {
    let c = state.config;
    let other = opposite(fill.side);
    let (bid_mult, ask_mult) = multipliers(ctx.position.size.0);
    match targets(c, *ctx.latest_book) {
        None => None,
        Some(None) => Some(withdrawn(state, ctx.now)),
        Some(Some((bid, ask))) => match (
            quote(
                c,
                *ctx.symbol,
                fill.side,
                on_side(fill.side, bid, ask),
                on_side(fill.side, bid_mult, ask_mult),
            ),
            missing_size(
                ctx.open_quotes@,
                other,
                c.notional_per_order,
                on_side(other, bid, ask),
                on_side(other, bid_mult, ask_mult),
                c.step_size,
            ),
        ) {
            (Some(first), Some(missing)) => Some(
                (
                    retargeted(state, bid, ask, ctx.now),
                    match missing {
                        None => seq![first],
                        Some(extra) => seq![
                            first,
                            Action::Quote(
                                maker_order(
                                    *ctx.symbol,
                                    other,
                                    on_side(other, bid, ask).0,
                                    extra,
                                ),
                            ),
                        ],
                    },
                ),
            ),
            _ => None,
        },
    }
}

/// A book update or heartbeat.
pub open spec fn book_step(
    state: KlineState,
    ctx: StrategyContext,
    snapshot: Snapshot,
    ts: Timestamp,
) -> Option<(KlineState, Seq<Action>)> {
    match targets(state.config, snapshot) {
        None => None,
        Some(None) => Some(withdrawn(state, ts)),
        Some(Some((bid, ask))) => if (targets_stand(state.last_bid, state.last_ask, bid, ask)
            && state.mid_prices.len() <= 1) || !interval_passed(
            state.last_requote_ts,
            ts,
            state.config.requote_interval_ms,
        ) {
            Some((state, seq![Action::NoOp]))
        } else {
            requoted(state, ctx, bid, ask, ts)
        },
    }
}

impl KlineScalp {
    fn compute_targets(&self, snapshot: &Snapshot) -> (result: Option<Option<(Price, Price)>>)
        ensures
            result == targets(self.config, *snapshot),
    {
        match try_inside_targets(self.config.tick_size, self.config.min_spread_bps, snapshot)? {
            None => Some(None),
            Some((bid, ask, _)) => Some(Some((bid, ask))),
        }
    }

    fn make_quote(
        &self,
        ctx: &StrategyContext<'_>,
        side: Side,
        price: Price,
        size_multiplier: Decimal,
    ) -> (result: Option<Action>)
        ensures
            result == quote(self.config, *ctx.symbol, side, price, size_multiplier),
    {
        let c = self.config;
        let size = try_bumped_size(
            c.notional_per_order,
            price,
            size_multiplier,
            c.step_size,
            c.min_notional,
        )?;
        Some(Action::Quote(make_post_only_intent(ctx.symbol, side, price, Size(size))))
    }

    /// The momentum of the kept mids, or `None` where it cannot be represented.
    pub fn try_momentum(&self) -> (result: Option<MomentumSignal>)
        ensures
            result == momentum_of(self.config, self@.mid_prices),
            result is Some && 0 < self.config.momentum_lookback < self@.mid_prices.len() ==> {
                let mids = self@.mid_prices;
                let now = mids.last().0;
                let then = mids[mids.len() - 1 - self.config.momentum_lookback].0;
                let threshold = self.config.momentum_bps_threshold@;
                now@ > 0 && then@ > 0 && exact_difference(now, then) && measures_exactly(
                    difference(now, then)->0,
                    then,
                ) ==> {
                    &&& reaches_bps(then@ - now@, then@, -threshold, !(result->0 is Up))
                    &&& result->0 is Down ==> reaches_bps(now@ - then@, then@, -threshold, false)
                    &&& result->0 is Flat ==> reaches_bps(now@ - then@, then@, -threshold, true)
                }
            },
    {
        let len: usize = self.mid_prices.len();
        if self.config.momentum_lookback == 0 || len as u64 <= self.config.momentum_lookback as u64 {
            return Some(MomentumSignal::Flat);
        }
        let lookback: usize = self.config.momentum_lookback as usize;
        let current = self.mid_prices[len - 1].0;
        let past = self.mid_prices[len - 1 - lookback].0;
        if !past.is_positive() || !current.is_positive() {
            return Some(MomentumSignal::Flat);
        }
        let change = current.checked_sub(past)?;
        let change_bps = try_bps_of(change, past)?;
        let threshold = self.config.momentum_bps_threshold;
        proof {
            if measures_exactly(change, past) {
                lemma_reads_bps_turned(change@, past@, change_bps@);
                lemma_reaches_bps(-change@, past@, -change_bps@, -threshold@);
                lemma_reaches_bps(change@, past@, change_bps@, -threshold@);
            }
        }
        if change_bps.is_more(threshold) {
            Some(MomentumSignal::Up)
        } else if change_bps.is_less(threshold.negate()) {
            Some(MomentumSignal::Down)
        } else {
            Some(MomentumSignal::Flat)
        }
    }

    /// The momentum of the kept mids.
    pub fn compute_momentum(&self) -> (result: MomentumSignal)
        requires
            momentum_of(self.config, self@.mid_prices) is Some,
        ensures
            momentum_of(self.config, self@.mid_prices) == Some(result),
    {
        self.try_momentum().unwrap()
    }

    /// Distance of a side from the mid under the current momentum, or `None` where it
    /// cannot be represented. The side that the momentum runs over does not come nearer. The
    /// other one does not move farther out, but for the basis point that it keeps at least.
    pub fn try_skewed_bps(&self, side: Side, base: Decimal) -> (result: Option<Decimal>)
        ensures
            result == skewed_bps(self.config, self.momentum, side, base),
            result is Some && base@ >= 0 ==> match (self.momentum, side) {
                (MomentumSignal::Up, Side::Bid) => result->0@ >= base@,
                (MomentumSignal::Down, Side::Ask) => result->0@ >= base@,
                (MomentumSignal::Flat, _) => result->0@ == base@,
                _ => lesser(base, whole(1))@ <= result->0@ <= greater(base, whole(1))@,
            },
    {
        proof {
            lemma_whole(1);
            lemma_pow10_positive(28);
        }
        let mult = self.config.momentum_skew_mult;
        if self.momentum == MomentumSignal::Flat || mult.is_at_most(Decimal::one()) {
            return Some(base);
        }
        let aggressive = match (side, self.momentum) {
            (Side::Ask, MomentumSignal::Up) => true,
            (Side::Bid, MomentumSignal::Down) => true,
            _ => false,
        };
        if aggressive {
            let nearer = base.checked_div(mult)?;
            proof {
                if base@ >= 0 {
                    use_type_invariant(&base);
                    lemma_parts(base);
                    let (b, m, p) = (base@, mult@, pow10(28));
                    assert(b * m >= b * p) by (nonlinear_arith)
                        requires
                            b >= 0,
                            m >= p,
                    ;
                    lemma_quotient_keeps_order(b, m, nearer@, mantissa_of(base), scale_of(base));
                }
            }
            Some(nearer.max(Decimal::one()))
        } else {
            base.checked_mul(mult)
        }
    }

    /// Distance of a side from the mid under the current momentum. The side that the momentum
    /// runs over does not come nearer. The other one does not move farther out, but for the
    /// basis point that it keeps at least.
    pub fn skewed_bps(&self, side: Side, base: Decimal) -> (result: Decimal)
        requires
            skewed_bps(self.config, self.momentum, side, base) is Some,
        ensures
            skewed_bps(self.config, self.momentum, side, base) == Some(result),
            base@ >= 0 ==> match (self.momentum, side) {
                (MomentumSignal::Up, Side::Bid) => result@ >= base@,
                (MomentumSignal::Down, Side::Ask) => result@ >= base@,
                (MomentumSignal::Flat, _) => result@ == base@,
                _ => lesser(base, whole(1))@ <= result@ <= greater(base, whole(1))@,
            },
    {
        self.try_skewed_bps(side, base).unwrap()
    }

    fn side_price(&self, side: Side, mid: Decimal) -> (result: Option<Decimal>)
        ensures
            result == skewed_price(self.config, self.momentum, side, mid),
            result is Some && mid@ >= 0 && self.config.min_spread_bps@ >= 0 ==> {
                &&& side is Bid ==> result->0@ <= mid@
                &&& side is Ask ==> result->0@ >= mid@
            },
    {
        proof {
            lemma_whole(1);
            lemma_whole(10_000);
            lemma_pow10_positive(28);
        }
        let bps = self.try_skewed_bps(side, self.config.min_spread_bps)?;
        try_price_away(mid, side, bps.checked_div(Decimal::whole(10_000))?)
    }

    fn retarget(&mut self, bid: Price, ask: Price, ts: Timestamp)
        ensures
            final(self)@ == retargeted(old(self)@, bid, ask, ts),
    {
        self.last_bid = Some(bid);
        self.last_ask = Some(ask);
        self.last_requote_ts = Some(ts);
        self.quotes_live = true;
    }

    fn keep_mid(&mut self, mid: Decimal)
        ensures
            final(self)@ == (KlineState {
                mid_prices: newest(
                    old(self)@.mid_prices.push(Price(mid)),
                    kept_mids(old(self)@.config),
                ),
                ..old(self)@
            }),
    {
        let lookback: usize = self.config.momentum_lookback as usize;
        let wanted: usize = lookback.saturating_add(1);
        let keep: usize = if wanted < 2 {
            2
        } else {
            wanted
        };
        let ghost all = self.mid_prices@.push(Price(mid));
        let ghost kept = *self;
        assert(keep == kept_mids(self.config));
        self.mid_prices.push_back(Price(mid));
        while self.mid_prices.len() > keep
            invariant
                newest(self.mid_prices@, keep as int) =~= newest(all, keep as int),
                self@ == (KlineState { mid_prices: self.mid_prices@, ..kept@ }),
            decreases self.mid_prices@.len(),
        {
            let ghost before = self.mid_prices@;
            let _ = self.mid_prices.pop_front();
            assert(self.mid_prices@ =~= before.drop_first());
        }
    }

    fn push_capped(
        &self,
        actions: &mut Vec<Action>,
        ctx: &StrategyContext<'_>,
        capped: bool,
        side: Side,
        price: Decimal,
    ) -> (result: Option<()>)
        ensures
            match capped_quote(self.config, *ctx, capped, side, price) {
                Some(more) => result is Some && final(actions)@ =~= old(actions)@ + more,
                None => result is None,
            },
    {
        if is_within_cap(ctx.position.size.0, capped, side) {
            let (bid_mult, ask_mult) = inventory_multipliers(ctx.position.size.0);
            let mult = match side {
                Side::Bid => bid_mult,
                Side::Ask => ask_mult,
            };
            let action = self.make_quote(ctx, side, Price(price), mult)?;
            actions.push(action);
        }
        Some(())
    }

    fn quote_around(&self, ctx: &StrategyContext<'_>, mid: Decimal) -> (result: Option<Vec<Action>>)
        ensures
            match requote_actions(self@, *ctx, mid) {
                Some(actions) => result is Some && result->0@ =~= actions,
                None => result is None,
            },
    {
        let size = ctx.position.size.0;
        let bid = self.side_price(Side::Bid, mid)?;
        let ask = self.side_price(Side::Ask, mid)?;
        let capped = is_at_cap(self.config.max_position_usdt, size, mid)?;
        let mut actions = vec![Action::CancelAll];
        if is_profit_reached(
            self.config.take_profit_usdt,
            size,
            ctx.position.avg_entry.0,
            mid,
        )? {
            let side = if size.is_positive() {
                Side::Ask
            } else {
                Side::Bid
            };
            let action = self.make_quote(ctx, side, Price(mid), Decimal::one())?;
            actions.push(action);
            return Some(actions);
        }
        self.push_capped(&mut actions, ctx, capped, Side::Bid, bid)?;
        self.push_capped(&mut actions, ctx, capped, Side::Ask, ask)?;
        Some(actions)
    }

    fn emit_requote(
        &mut self,
        ctx: &StrategyContext<'_>,
        bid: Price,
        ask: Price,
        ts: Timestamp,
    ) -> (result: Option<Vec<Action>>)
        ensures
            follows(requoted(old(self)@, *ctx, bid, ask, ts), result, final(self)@),
    {
        self.retarget(bid, ask, ts);
        let mid = try_midpoint(bid.0, ask.0)?;
        self.keep_mid(mid);
        self.momentum = self.try_momentum()?;
        self.quote_around(ctx, mid)
    }

    fn cancel_if_live(&mut self, ts: Timestamp) -> (result: Vec<Action>)
        ensures
            (final(self)@, result@) == withdrawn(old(self)@, ts),
    {
        self.last_bid = None;
        self.last_ask = None;
        self.last_requote_ts = Some(ts);
        if self.quotes_live {
            self.quotes_live = false;
            vec![Action::CancelAll]
        } else {
            Vec::new()
        }
    }

    fn handle_fill(&mut self, ctx: &StrategyContext<'_>, fill: &Fill) -> (result: Option<
        Vec<Action>,
    >)
        ensures
            follows(fill_step(old(self)@, *ctx, *fill), result, final(self)@),
    {
        let (bid, ask) = match self.compute_targets(ctx.latest_book)? {
            Some(pair) => pair,
            None => {
                return Some(self.cancel_if_live(ctx.now));
            },
        };
        self.retarget(bid, ask, ctx.now);
        let (bid_mult, ask_mult) = inventory_multipliers(ctx.position.size.0);
        let other = fill.side.opposite();
        let (filled_price, filled_mult, other_price, other_mult) = match fill.side {
            Side::Bid => (bid, bid_mult, ask, ask_mult),
            Side::Ask => (ask, ask_mult, bid, bid_mult),
        };
        let first = self.make_quote(ctx, fill.side, filled_price, filled_mult)?;
        let mut actions = vec![first];
        let missing = try_missing_size(
            ctx.open_quotes,
            other,
            self.config.notional_per_order,
            other_price,
            other_mult,
            self.config.step_size,
        )?;
        if let Some(extra) = missing {
            actions.push(
                Action::Quote(make_post_only_intent(ctx.symbol, other, other_price, Size(extra))),
            );
        }
        Some(actions)
    }

    fn handle_book(&mut self, ctx: &StrategyContext<'_>, snapshot: &Snapshot, ts: Timestamp)
        -> (result: Option<Vec<Action>>)
        ensures
            follows(book_step(old(self)@, *ctx, *snapshot, ts), result, final(self)@),
    {
        let (bid, ask) = match self.compute_targets(snapshot)? {
            Some(pair) => pair,
            None => {
                return Some(self.cancel_if_live(ts));
            },
        };
        let stands = do_targets_stand(self.last_bid, self.last_ask, bid, ask)
            && self.mid_prices.len() <= 1;
        if stands || !has_interval_passed(
            self.last_requote_ts,
            ts,
            self.config.requote_interval_ms,
        ) {
            return Some(vec![Action::NoOp]);
        }
        self.emit_requote(ctx, bid, ask, ts)
    }
}

impl Strategy for KlineScalp {
    type Config = KlineScalpConfig;

    open spec fn initial(config: KlineScalpConfig) -> Option<KlineState> {
        Some(
            KlineState {
                config,
                last_bid: None,
                last_ask: None,
                last_requote_ts: None,
                quotes_live: false,
                mid_prices: Seq::empty(),
                momentum: MomentumSignal::Flat,
            },
        )
    }

    open spec fn event_step(state: KlineState, ctx: StrategyContext, event: MarketEvent) -> Option<
        (KlineState, Seq<Action>),
    > {
        match event {
            MarketEvent::BookUpdate { snapshot } => book_step(state, ctx, snapshot, snapshot.ts),
            MarketEvent::Heartbeat { ts } => book_step(state, ctx, *ctx.latest_book, ts),
            MarketEvent::Trade { .. } => Some((state, Seq::empty())),
            MarketEvent::Fill(fill) => fill_step(state, ctx, fill),
        }
    }

    open spec fn rejection_step(
        state: KlineState,
        ctx: StrategyContext,
        intent: QuoteIntent,
        reason: Seq<char>,
    ) -> Option<(KlineState, Seq<Action>)> {
        let cleared = KlineState { last_bid: None, last_ask: None, last_requote_ts: None, ..state };
        match targets(state.config, *ctx.latest_book) {
            None => None,
            Some(None) => Some(withdrawn(cleared, ctx.now)),
            Some(Some((bid, ask))) => requoted(cleared, ctx, bid, ask, ctx.now),
        }
    }

    fn try_new(config: KlineScalpConfig) -> (result: Option<KlineScalp>) {
        Some(
            KlineScalp {
                config,
                last_bid: None,
                last_ask: None,
                last_requote_ts: None,
                quotes_live: false,
                mid_prices: VecDeque::new(),
                momentum: MomentumSignal::Flat,
            },
        )
    }

    fn name(&self) -> (result: &str)
        ensures
            result@ == "kline-scalp"@,
    {
        "kline-scalp"
    }

    fn try_on_event(&mut self, ctx: &StrategyContext<'_>, event: &MarketEvent) -> (result: Option<
        Vec<Action>,
    >) {
        match event {
            MarketEvent::BookUpdate { snapshot } => self.handle_book(ctx, snapshot, snapshot.ts),
            MarketEvent::Heartbeat { ts } => self.handle_book(ctx, ctx.latest_book, *ts),
            MarketEvent::Trade { .. } => Some(Vec::new()),
            MarketEvent::Fill(fill) => self.handle_fill(ctx, fill),
        }
    }

    fn try_on_quote_rejected(
        &mut self,
        ctx: &StrategyContext<'_>,
        intent: &QuoteIntent,
        reason: &str,
    ) -> (result: Option<Vec<Action>>) {
        self.last_bid = None;
        self.last_ask = None;
        self.last_requote_ts = None;
        match self.compute_targets(ctx.latest_book)? {
            None => Some(self.cancel_if_live(ctx.now)),
            Some((bid, ask)) => self.emit_requote(ctx, bid, ask, ctx.now),
        }
    }

    fn on_notional_updated(
        &mut self,
        ctx: &StrategyContext<'_>,
        notional_per_order: Decimal,
    ) -> (result: Vec<Action>)
        ensures
            result@ == Seq::<Action>::empty(),
            final(self)@ == (if notional_per_order@ > 0 {
                KlineState {
                    config: KlineScalpConfig { notional_per_order, ..old(self)@.config },
                    ..old(self)@
                }
            } else {
                old(self)@
            }),
    {
        if notional_per_order.is_positive() {
            self.config.notional_per_order = notional_per_order;
        }
        Vec::new()
    }
}

/// Without a lookback there is no momentum and the quotes are symmetric.
pub proof fn law_no_lookback_no_skew(
    config: KlineScalpConfig,
    mids: Seq<Price>,
    side: Side,
    base: Decimal,
)
    requires
        config.momentum_lookback == 0,
    ensures
        momentum_of(config, mids) == Some(MomentumSignal::Flat),
        skewed_bps(config, MomentumSignal::Flat, side, base) == Some(base),
{
}

/// A requote of a capped position quotes only the side that reduces it.
pub proof fn law_capped_requote_reduces_only(state: KlineState, ctx: StrategyContext, mid: Decimal)
    requires
        requote_actions(state, ctx, mid) is Some,
        at_cap(state.config.max_position_usdt, ctx.position.size.0, mid) == Some(true),
    ensures
        ctx.position.size.0@ > 0 ==> !quotes_on(
            requote_actions(state, ctx, mid)->0,
            Side::Bid,
        ),
        ctx.position.size.0@ < 0 ==> !quotes_on(
            requote_actions(state, ctx, mid)->0,
            Side::Ask,
        ),
{
}

proof fn lemma_requote_keeps_to(state: KlineState, ctx: StrategyContext, mid: Decimal)
    ensures
        requote_actions(state, ctx, mid) matches Some(actions) ==> keeps_to(actions, *ctx.symbol),
{
    let c = state.config;
    let all = seq![Action::CancelAll];
    match (
        skewed_price(c, state.momentum, Side::Bid, mid),
        skewed_price(c, state.momentum, Side::Ask, mid),
        at_cap(c.max_position_usdt, ctx.position.size.0, mid),
    ) {
        (Some(bid), Some(ask), Some(capped)) => match (
            capped_quote(c, ctx, capped, Side::Bid, bid),
            capped_quote(c, ctx, capped, Side::Ask, ask),
        ) {
            (Some(bids), Some(asks)) => {
                lemma_keeps_to_joined(all, bids, *ctx.symbol);
                lemma_keeps_to_joined(all + bids, asks, *ctx.symbol);
            },
            _ => {},
        },
        _ => {},
    }
}

proof fn lemma_requoted_keeps_to(
    state: KlineState,
    ctx: StrategyContext,
    bid: Price,
    ask: Price,
    ts: Timestamp,
)
    ensures
        requoted(state, ctx, bid, ask, ts) matches Some((_, actions)) ==> keeps_to(
            actions,
            *ctx.symbol,
        ),
{
    if let Some((next, _)) = requoted(state, ctx, bid, ask, ts) {
        lemma_requote_keeps_to(next, ctx, midpoint(bid.0, ask.0)->0);
    }
}

proof fn lemma_book_keeps_to(
    state: KlineState,
    ctx: StrategyContext,
    snapshot: Snapshot,
    ts: Timestamp,
)
    ensures
        book_step(state, ctx, snapshot, ts) matches Some((_, actions)) ==> keeps_to(
            actions,
            *ctx.symbol,
        ),
{
    if let Some(Some((bid, ask))) = targets(state.config, snapshot) {
        lemma_requoted_keeps_to(state, ctx, bid, ask, ts);
    }
}

proof fn lemma_fill_keeps_to(state: KlineState, ctx: StrategyContext, fill: Fill)
    ensures
        fill_step(state, ctx, fill) matches Some((_, actions)) ==> keeps_to(actions, *ctx.symbol),
{
}

/// No event and no rejection calls for an order in another instrument.
pub proof fn law_quotes_its_instrument(
    state: KlineState,
    ctx: StrategyContext,
    event: MarketEvent,
    intent: QuoteIntent,
    reason: Seq<char>,
)
    ensures
        KlineScalp::event_step(state, ctx, event) matches Some((_, actions)) ==> keeps_to(
            actions,
            *ctx.symbol,
        ),
        KlineScalp::rejection_step(state, ctx, intent, reason) matches Some((_, actions))
            ==> keeps_to(actions, *ctx.symbol),
{
    match event {
        MarketEvent::BookUpdate { snapshot } => {
            lemma_book_keeps_to(state, ctx, snapshot, snapshot.ts);
        },
        MarketEvent::Heartbeat { ts } => {
            lemma_book_keeps_to(state, ctx, *ctx.latest_book, ts);
        },
        MarketEvent::Fill(fill) => {
            lemma_fill_keeps_to(state, ctx, fill);
        },
        MarketEvent::Trade { .. } => {},
    }
    if let Some(Some((bid, ask))) = targets(state.config, *ctx.latest_book) {
        let cleared = KlineState { last_bid: None, last_ask: None, last_requote_ts: None, ..state };
        lemma_requoted_keeps_to(cleared, ctx, bid, ask, ctx.now);
    }
}

/// The momentum compares the newest mid with the one `momentum_lookback` before it: what came
/// earlier does not matter.
pub proof fn law_momentum_forgets_the_past(
    config: KlineScalpConfig,
    earlier: Seq<Price>,
    mids: Seq<Price>,
)
    requires
        mids.len() > config.momentum_lookback,
    ensures
        momentum_of(config, earlier + mids) == momentum_of(config, mids),
{
    let all = earlier + mids;
    let back = config.momentum_lookback as int;
    assert(all.last() == mids.last());
    assert(all[all.len() - 1 - back] == mids[mids.len() - 1 - back]);
}

/// Where the mid rises, the ask comes nearer and the bid moves further out; where it falls, the
/// other way round.
pub proof fn law_momentum_skews_both_sides(
    config: KlineScalpConfig,
    base: Decimal,
    near: Decimal,
    far: Decimal,
)
    requires
        config.momentum_skew_mult@ > whole(1)@,
        quotient(base, config.momentum_skew_mult) == Some(near),
        product(base, config.momentum_skew_mult) == Some(far),
    ensures
        skewed_bps(config, MomentumSignal::Up, Side::Bid, base) == Some(far),
        skewed_bps(config, MomentumSignal::Down, Side::Ask, base) == Some(far),
        near@ >= whole(1)@ ==> skewed_bps(config, MomentumSignal::Up, Side::Ask, base) == Some(near)
            && skewed_bps(config, MomentumSignal::Down, Side::Bid, base) == Some(near),
        near@ < whole(1)@ ==> skewed_bps(config, MomentumSignal::Up, Side::Ask, base) == Some(
            whole(1),
        ) && skewed_bps(config, MomentumSignal::Down, Side::Bid, base) == Some(whole(1)),
{
}

/// Enough mids are kept for the lookback.
pub proof fn law_lookback_fits(config: KlineScalpConfig, mids: Seq<Price>, mid: Price)
    requires
        config.momentum_lookback + 1 <= usize::MAX,
        mids.len() >= config.momentum_lookback,
    ensures
        newest(mids.push(mid), kept_mids(config)).last() == mid,
        newest(mids.push(mid), kept_mids(config)).len() > config.momentum_lookback,
{
}

/// With its profit reached a position is offered at the mid on the side that reduces it and
/// nothing else is quoted; otherwise each quote stands at the skewed price of its side.
pub proof fn law_requote_takes_profit_or_quotes(
    state: KlineState,
    ctx: StrategyContext,
    mid: Decimal,
    reached: bool,
)
    requires
        profit_reached(
            state.config.take_profit_usdt,
            ctx.position.size.0,
            ctx.position.avg_entry.0,
            mid,
        ) == Some(reached),
    ensures
        requote_actions(state, ctx, mid) matches Some(actions) ==> {
            &&& actions.len() > 0 && actions[0] is CancelAll
            &&& reached ==> actions.len() == 2 && actions[1] is Quote
                && actions[1]->Quote_0.price.0 == mid && (ctx.position.size.0@ > 0
                ==> actions[1]->Quote_0.side is Ask) && (ctx.position.size.0@ <= 0
                ==> actions[1]->Quote_0.side is Bid)
            &&& !reached ==> forall|i: int|
                0 <= i < actions.len() ==> (#[trigger] actions[i] matches Action::Quote(order)
                    ==> skewed_price(state.config, state.momentum, order.side, mid) == Some(
                    order.price.0,
                ))
        },
{
}

/// After a fill the filled side is quoted anew and every order stands at the target of its side.
pub proof fn law_fill_requotes_at_the_targets(state: KlineState, ctx: StrategyContext, fill: Fill)
    ensures
        fill_step(state, ctx, fill) matches Some((next, actions)) ==> {
            &&& next.quotes_live ==> actions.len() > 0 ==> actions[0] is Quote
                && actions[0]->Quote_0.side == fill.side
            &&& forall|i: int|
                0 <= i < actions.len() ==> (#[trigger] actions[i] matches Action::Quote(order) ==> {
                    &&& order.side is Bid ==> Some(order.price) == next.last_bid
                    &&& order.side is Ask ==> Some(order.price) == next.last_ask
                })
        },
{
}

/// No requote comes sooner than the interval after the last one.
pub proof fn law_requotes_are_spaced(
    state: KlineState,
    ctx: StrategyContext,
    snapshot: Snapshot,
    ts: Timestamp,
    bid: Price,
    ask: Price,
)
    requires
        targets(state.config, snapshot) == Some(Some((bid, ask))),
        state.last_requote_ts is Some,
    ensures
        0 <= ts.0 - (state.last_requote_ts->0).0 < state.config.requote_interval_ms * 1_000_000
            <= u64::MAX ==> book_step(state, ctx, snapshot, ts) == Some(
            (state, seq![Action::NoOp]),
        ),
        ts.0 - (state.last_requote_ts->0).0 >= state.config.requote_interval_ms * 1_000_000
            && state.last_bid is None ==> book_step(state, ctx, snapshot, ts) == requoted(
            state,
            ctx,
            bid,
            ask,
            ts,
        ),
{
}

/// Momentum is up where the newest mid has risen by more than the threshold over the lookback,
/// down where it has fallen by more, and flat in between.
pub proof fn law_momentum_measures_the_change(
    config: KlineScalpConfig,
    mids: Seq<Price>,
    change: Decimal,
    change_bps: Decimal,
)
    requires
        0 < config.momentum_lookback < mids.len(),
        mids.last().0@ > 0,
        difference(
            mids.last().0,
            mids[mids.len() - 1 - config.momentum_lookback].0,
        ) == Some(change),
        change@ == mids.last().0@ - mids[mids.len() - 1 - config.momentum_lookback].0@,
        reads_exactly(change, mids[mids.len() - 1 - config.momentum_lookback].0, change_bps),
        negated(config.momentum_bps_threshold)@ == -config.momentum_bps_threshold@,
        config.momentum_bps_threshold@ >= 0,
    ensures
        ({
            let then = mids[mids.len() - 1 - config.momentum_lookback].0@;
            let rise = (mids.last().0@ - then) * 10_000 * pow10(28);
            let threshold = config.momentum_bps_threshold@ * then;
            momentum_of(config, mids) == Some(
                if rise > threshold {
                    MomentumSignal::Up
                } else if rise < -threshold {
                    MomentumSignal::Down
                } else {
                    MomentumSignal::Flat
                },
            )
        }),
{
    let past = mids[mids.len() - 1 - config.momentum_lookback].0;
    let t = config.momentum_bps_threshold@;
    lemma_reads_exactly(change, past, change_bps, t);
    lemma_reads_exactly(change, past, change_bps, -t);
    assert((-t) * past@ == -(t * past@)) by (nonlinear_arith);
}

/// A quote is in the size of its own side: twice as large where it reduces the position.
pub proof fn law_quotes_are_sized_by_their_side(
    config: KlineScalpConfig,
    ctx: StrategyContext,
    capped: bool,
    side: Side,
    price: Decimal,
)
    ensures
        capped_quote(config, ctx, capped, side, price) matches Some(actions) ==> actions.len() > 0
            ==> {
            let size = ctx.position.size.0@;
            let reduces = side is Ask && size > 0 || side is Bid && size < 0;
            let order = actions[0]->Quote_0;
            &&& actions.len() == 1 && actions[0] is Quote
            &&& order.side == side && order.price.0 == price
            &&& bumped_size(
                config.notional_per_order,
                Price(price),
                if reduces {
                    whole(2)
                } else {
                    whole(1)
                },
                config.step_size,
                config.min_notional,
            ) == Some(order.size.0)
        },
{
}

} // verus!
