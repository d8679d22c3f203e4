//! Inventory-aware quoting without a horizon, after Gueant, Lehalle and
//! Fernandez-Tapia.
//!
//! ```text
//! reservation price  r = mid x (1 - q x gamma x variance)
//! half-spread        d = mid x base_spread_bps / 10_000
//! ```
//!
//! The variance is that of log returns, so the skew is a fraction of the price. The
//! quotes are at `r - d` and `r + d`. A long position pushes the reservation price
//! down. Nothing is quoted before the volatility estimator is warm.

use crate::avellaneda_stoikov::{half_spread, try_half_spread};
use crate::decimal::{
    difference, exact_difference, exact_product, exact_sum, pow10, product, quotient, sum, times,
    whole, Decimal,
};
use crate::market::{maker_order, MarketEvent, Price, QuoteIntent, Side, Size, Timestamp};
use crate::quoting::{
    compute_mid_strict, make_post_only_intent, mid_strict, requote_drift, should_requote_drift,
};
use crate::sizing::{stepped, try_stepped};
use crate::strategy::{follows, keeps_to, Action, Strategy, StrategyContext};
use crate::volatility::{VolatilityReading, WARMUP_COUNT};
use vstd::prelude::*;

verus! {

/// Configuration for [`Glft`].
#[derive(Clone, Copy, Debug)]
pub struct GlftConfig {
    /// Risk aversion. Higher means stronger mean reversion of the inventory.
    pub gamma: Decimal,
    /// Half-spread in bps.
    pub base_spread_bps: u32,
    /// Size of each quote where there is no notional.
    pub size_per_quote: Size,
    /// Notional that each quote is sized to.
    pub notional_per_quote: Option<Decimal>,
    /// Lot step for sizing by notional.
    pub step_size: Decimal,
    /// Least time between requotes, in ms.
    pub min_requote_interval_ms: u64,
    /// Twice the drift of the mid that calls for a requote before that, in bps.
    pub level_step_bps: u32,
    /// Variance assumed before anything was seen.
    pub initial_var: Decimal,
}

/// Infinite-horizon strategy.
#[derive(Clone, Copy, Debug)]
pub struct Glft {
    /// Settings.
    pub config: GlftConfig,
    /// What the volatility estimator says.
    pub reading: VolatilityReading,
    /// When the quotes were last placed.
    pub last_requote_ts: Option<Timestamp>,
    /// Mid at which they were placed.
    pub last_quoted_mid: Option<Price>,
}

impl View for Glft {
    type V = Glft;

    open spec fn view(&self) -> Glft {
        *self
    }
}

/// The size of a quote: the notional at this price rounded down to whole lots, which may
/// be none, or the fixed size.
pub open spec fn glft_size(config: GlftConfig, price: Decimal) -> Option<Decimal> {
    match config.notional_per_quote {
        Some(n) => if n@ > 0 && price@ > 0 && config.step_size@ > 0 {
            stepped(quotient(n, price), config.step_size)
        } else {
            Some(config.size_per_quote.0)
        },
        None => Some(config.size_per_quote.0),
    }
}

/// The price the quotes are laid around: the mid, shifted against the inventory.
pub open spec fn glft_reservation(
    config: GlftConfig,
    mid: Decimal,
    q: Decimal,
    var: Decimal,
) -> Option<Decimal> {
    match times(product(q, config.gamma), Some(var)) {
        None => None,
        Some(skew) => times(Some(mid), difference(whole(1), skew)),
    }
}

/// What a two-sided book update calls for.
pub open spec fn glft_quote(state: Glft, ctx: StrategyContext, mid: Price, ts: Timestamp) -> Option<
    (Glft, Seq<Action>),
> {
    if state.reading.samples_seen < WARMUP_COUNT {
        Some((state, Seq::empty()))
    } else {
        match requote_drift(
            state.last_requote_ts,
            state.last_quoted_mid,
            mid,
            ts,
            state.config.min_requote_interval_ms,
            state.config.level_step_bps,
        ) {
            None => None,
            Some(false) => Some((state, Seq::empty())),
            Some(true) => match (
                glft_reservation(state.config, mid.0, ctx.position.size.0, state.reading.var),
                half_spread(mid.0, state.config.base_spread_bps),
            ) {
                (Some(r), Some(delta)) => match (difference(r, delta), sum(r, delta)) {
                    (Some(bid), Some(ask)) => match (
                        glft_size(state.config, bid),
                        glft_size(state.config, ask),
                    ) {
                        (Some(bid_size), Some(ask_size)) => Some(
                            (
                                Glft {
                                    last_requote_ts: Some(ts),
                                    last_quoted_mid: Some(mid),
                                    ..state
                                },
                                seq![
                                    Action::CancelAll,
                                    Action::Quote(
                                        maker_order(*ctx.symbol, Side::Bid, bid, bid_size),
                                    ),
                                    Action::Quote(
                                        maker_order(*ctx.symbol, Side::Ask, ask, ask_size),
                                    ),
                                ],
                            ),
                        ),
                        _ => None,
                    },
                    _ => None,
                },
                _ => None,
            },
        }
    }
}

impl Glft {
    /// The variance in use.
    pub fn current_var(&self) -> (result: Decimal)
        ensures
            result == self.reading.var,
    {
        self.reading.var
    }

    /// Returns the estimator has seen.
    pub fn samples_seen(&self) -> (result: u32)
        ensures
            result == self.reading.samples_seen,
    {
        self.reading.samples_seen
    }

    /// Takes the estimator's reading.
    pub fn set_reading(&mut self, reading: VolatilityReading)
        ensures
            *final(self) == (Glft { reading, ..*old(self) }),
    {
        self.reading = reading;
    }

    /// The reservation price, or `None` where it cannot be represented. A long position
    /// does not raise it above the mid, a short one does not lower it, and none leaves it
    /// there.
    pub fn try_reservation(config: &GlftConfig, mid: Decimal, q: Decimal, var: Decimal) -> (result:
        Option<Decimal>)
        ensures
            result == glft_reservation(*config, mid, q, var),
            result is Some && mid@ >= 0 && config.gamma@ >= 0 && var@ >= 0 ==> {
                &&& q@ >= 0 ==> result->0@ <= mid@
                &&& q@ <= 0 ==> result->0@ >= mid@
            },
    {
        proof {
            crate::decimal::lemma_whole(1);
            crate::decimal::lemma_pow10_positive(28);
        }
        let skew = q.checked_mul(config.gamma)?.checked_mul(var)?;
        mid.checked_mul(Decimal::one().checked_sub(skew)?)
    }

    /// The size of a quote at `price`, or `None` where it cannot be represented; see
    /// [`glft_size`].
    pub fn quote_size(&self, price: Decimal) -> (result: Option<Size>)
        ensures
            match glft_size(self.config, price) {
                Some(size) => result == Some(Size(size)),
                None => result is None,
            },
    {
        let step = self.config.step_size;
        if let Some(n) = self.config.notional_per_quote {
            if n.is_positive() && price.is_positive() && step.is_positive() {
                return Some(Size(try_stepped(n.checked_div(price)?, step)?));
            }
        }
        Some(self.config.size_per_quote)
    }

    fn quote(&mut self, ctx: &StrategyContext<'_>, mid: Price, ts: Timestamp) -> (result: Option<
        Vec<Action>,
    >)
        ensures
            follows(glft_quote(*old(self), *ctx, mid, ts), result, *final(self)),
    {
        if !self.reading.is_warm() {
            return Some(Vec::new());
        }
        if !should_requote_drift(
            self.last_requote_ts,
            self.last_quoted_mid,
            mid,
            ts,
            self.config.min_requote_interval_ms,
            self.config.level_step_bps,
        )? {
            return Some(Vec::new());
        }
        let r = Self::try_reservation(
            &self.config,
            mid.0,
            ctx.position.size.0,
            self.reading.var,
        )?;
        let delta = try_half_spread(mid.0, self.config.base_spread_bps)?;
        self.last_requote_ts = Some(ts);
        self.last_quoted_mid = Some(mid);
        let bid = r.checked_sub(delta)?;
        let ask = r.checked_add(delta)?;
        let bid_size = self.quote_size(bid)?;
        let ask_size = self.quote_size(ask)?;
        Some(
            vec![
                Action::CancelAll,
                Action::Quote(make_post_only_intent(ctx.symbol, Side::Bid, Price(bid), bid_size)),
                Action::Quote(make_post_only_intent(ctx.symbol, Side::Ask, Price(ask), ask_size)),
            ],
        )
    }
}

impl Strategy for Glft {
    type Config = GlftConfig;

    open spec fn initial(config: GlftConfig) -> Option<Glft> {
        Some(
            Glft {
                config,
                reading: VolatilityReading { var: config.initial_var, samples_seen: 0 },
                last_requote_ts: None,
                last_quoted_mid: None,
            },
        )
    }

    open spec fn event_step(state: Glft, ctx: StrategyContext, event: MarketEvent) -> Option<
        (Glft, Seq<Action>),
    > {
        match event {
            MarketEvent::BookUpdate { snapshot } => match mid_strict(snapshot) {
                None => None,
                Some(None) => Some((state, Seq::empty())),
                Some(Some(mid)) => glft_quote(state, ctx, mid, snapshot.ts),
            },
            _ => Some((state, Seq::empty())),
        }
    }

    open spec fn rejection_step(
        state: Glft,
        ctx: StrategyContext,
        intent: QuoteIntent,
        reason: Seq<char>,
    ) -> Option<(Glft, Seq<Action>)> {
        Some((state, Seq::empty()))
    }

    fn try_new(config: GlftConfig) -> (result: Option<Glft>) {
        Some(
            Glft {
                config,
                reading: VolatilityReading::initial(config.initial_var),
                last_requote_ts: None,
                last_quoted_mid: None,
            },
        )
    }

    fn name(&self) -> (result: &str)
        ensures
            result@ == "glft"@,
    {
        "glft"
    }

    fn try_on_event(&mut self, ctx: &StrategyContext<'_>, event: &MarketEvent) -> (result: Option<
        Vec<Action>,
    >) {
        match event {
            MarketEvent::BookUpdate { snapshot } => match compute_mid_strict(snapshot)? {
                None => Some(Vec::new()),
                Some(mid) => self.quote(ctx, mid, snapshot.ts),
            },
            _ => Some(Vec::new()),
        }
    }

    fn try_on_quote_rejected(
        &mut self,
        ctx: &StrategyContext<'_>,
        intent: &QuoteIntent,
        reason: &str,
    ) -> (result: Option<Vec<Action>>) {
        Some(Vec::new())
    }

    fn on_notional_updated(
        &mut self,
        ctx: &StrategyContext<'_>,
        notional_per_order: Decimal,
    ) -> (result: Vec<Action>)
        ensures
            result@.len() == 0,
            *final(self) == (Glft {
                config: if notional_per_order@ > 0 {
                    GlftConfig { notional_per_quote: Some(notional_per_order), ..old(self).config }
                } else {
                    old(self).config
                },
                ..*old(self)
            }),
    {
        if notional_per_order.is_positive() {
            self.config.notional_per_quote = Some(notional_per_order);
        }
        Vec::new()
    }
}

/// Nothing is quoted before the estimator is warm.
pub proof fn law_warmup_quotes_nothing(state: Glft, ctx: StrategyContext, event: MarketEvent)
    requires
        state.reading.samples_seen < WARMUP_COUNT,
    ensures
        Glft::event_step(state, ctx, event) matches Some((next, actions)) ==> next == state
            && actions.len() == 0,
{
}

/// The strategy either leaves its quotes alone or cancels everything and places one bid
/// and one ask.
pub proof fn law_quotes_come_in_pairs(state: Glft, ctx: StrategyContext, event: MarketEvent)
    ensures
        Glft::event_step(state, ctx, event) matches Some((next, actions)) ==> {
            ||| actions.len() == 0 && next == state
            ||| actions.len() == 3 && actions[0] is CancelAll && (
            actions[1] matches Action::Quote(bid) && bid.side is Bid) && (
            actions[2] matches Action::Quote(ask) && ask.side is Ask)
        },
{
}

/// No event and no rejection calls for an order in another instrument.
pub proof fn law_quotes_its_instrument(
    state: Glft,
    ctx: StrategyContext,
    event: MarketEvent,
    intent: QuoteIntent,
    reason: Seq<char>,
)
    ensures
        Glft::event_step(state, ctx, event) matches Some((_, actions)) ==> keeps_to(
            actions,
            *ctx.symbol,
        ),
        Glft::rejection_step(state, ctx, intent, reason) matches Some((_, actions)) ==> keeps_to(
            actions,
            *ctx.symbol,
        ),
{
}

/// The quotes lie evenly around the reservation price, half a spread on either side of it, each
/// in the size that its price asks for.
pub proof fn law_quotes_straddle_the_reservation(
    state: Glft,
    ctx: StrategyContext,
    mid: Price,
    ts: Timestamp,
    r: Decimal,
    delta: Decimal,
)
    requires
        glft_reservation(state.config, mid.0, ctx.position.size.0, state.reading.var) == Some(r),
        half_spread(mid.0, state.config.base_spread_bps) == Some(delta),
        exact_difference(r, delta),
        exact_sum(r, delta),
    ensures
        glft_quote(state, ctx, mid, ts) matches Some((next, actions)) ==> actions.len() > 0 ==> {
            let (bid, ask) = (actions[1]->Quote_0, actions[2]->Quote_0);
            &&& actions.len() == 3 && actions[0] is CancelAll
            &&& bid.side is Bid && bid.price.0@ == r@ - delta@ && Some(bid.size.0) == glft_size(
                state.config,
                bid.price.0,
            )
            &&& ask.side is Ask && ask.price.0@ == r@ + delta@ && Some(ask.size.0) == glft_size(
                state.config,
                ask.price.0,
            )
            &&& next.last_quoted_mid == Some(mid) && next.last_requote_ts == Some(ts)
        },
{
}

/// The reservation price leaves the mid by the share of inventory, risk aversion and variance
/// multiplied together, against the inventory.
pub proof fn law_reservation_leans_against_inventory(
    config: GlftConfig,
    mid: Decimal,
    q: Decimal,
    var: Decimal,
    risk: Decimal,
    skew: Decimal,
    rest: Decimal,
)
    requires
        product(q, config.gamma) == Some(risk),
        risk@ * pow10(28) == q@ * config.gamma@,
        product(risk, var) == Some(skew),
        skew@ * pow10(28) == risk@ * var@,
        difference(whole(1), skew) == Some(rest),
        rest@ == pow10(28) - skew@,
        exact_product(mid, rest),
    ensures
        glft_reservation(config, mid, q, var) is Some,
        glft_reservation(config, mid, q, var)->0@ * pow10(28) == mid@ * (pow10(28) - skew@),
        skew@ * pow10(28) * pow10(28) == q@ * config.gamma@ * var@,
{
    let p = pow10(28);
    let (x, g, v, k, d) = (q@, config.gamma@, var@, risk@, skew@);
    assert(d * p * p == x * g * v) by (nonlinear_arith)
        requires
            k * p == x * g,
            d * p == k * v,
    ;
}

/// A quote sized by notional is worth it at its price, rounded down to whole lots; without a
/// notional, a price or a lot step the fixed size is quoted.
pub proof fn law_size_is_worth_the_notional(config: GlftConfig, price: Decimal, raw: Decimal)
    ensures
        config.notional_per_quote is None || price@ <= 0 || config.step_size@ <= 0 ==> glft_size(
            config,
            price,
        ) == Some(config.size_per_quote.0),
        config.notional_per_quote is Some && config.notional_per_quote->0@ > 0 && price@ > 0
            && config.step_size@ > 0 && quotient(config.notional_per_quote->0, price) == Some(raw)
            ==> glft_size(config, price) == stepped(Some(raw), config.step_size),
{
}

} // verus!
