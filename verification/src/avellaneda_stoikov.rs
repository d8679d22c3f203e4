//! Inventory-aware quoting with a finite horizon, after Avellaneda and Stoikov.
//!
//! ```text
//! reservation price  r = mid - q x gamma x variance x horizon
//! half-spread        d = mid x base_spread_bps / 10_000
//! ```
//!
//! The quotes are at `r - d` and `r + d`. A long position pushes the reservation price
//! down, which makes the ask more attractive; a short one pushes it up. Nothing is
//! quoted before the volatility estimator is warm.

use crate::decimal::{
    difference, exact_difference, exact_product, exact_quotient, exact_sum, lemma_pow10_positive,
    lemma_whole, over, pow10, product, sum, times, whole, Decimal,
};
use crate::market::{MarketEvent, Price, QuoteIntent, Size, Timestamp};
use crate::quoting::{
    compute_mid_strict, mid_strict, post_only_pair, quoted_pair, requote_drift,
    should_requote_drift,
};
use crate::strategy::{follows, keeps_to, Action, Strategy, StrategyContext};
use crate::volatility::{VolatilityReading, WARMUP_COUNT};
use vstd::prelude::*;

verus! {

/// Configuration for [`AvellanedaStoikov`].
#[derive(Clone, Copy, Debug)]
pub struct AvellanedaStoikovConfig {
    /// Risk aversion. Higher means stronger mean reversion of the inventory.
    pub gamma: Decimal,
    /// Half-spread in bps.
    pub base_spread_bps: u32,
    /// Horizon in seconds. It is fixed, not a countdown.
    pub horizon_sec: u64,
    /// Size of each quote.
    pub size_per_quote: Size,
    /// Least time between requotes, in ms.
    pub min_requote_interval_ms: u64,
    /// Twice the drift of the mid that calls for a requote before that, in bps.
    pub level_step_bps: u32,
    /// Variance assumed before anything was seen.
    pub initial_var: Decimal,
}

/// Finite-horizon strategy.
#[derive(Clone, Copy, Debug)]
pub struct AvellanedaStoikov {
    /// Settings.
    pub config: AvellanedaStoikovConfig,
    /// What the volatility estimator says.
    pub reading: VolatilityReading,
    /// When the quotes were last placed.
    pub last_requote_ts: Option<Timestamp>,
    /// Mid at which they were placed.
    pub last_quoted_mid: Option<Price>,
}

impl View for AvellanedaStoikov {
    type V = AvellanedaStoikov;

    open spec fn view(&self) -> AvellanedaStoikov {
        *self
    }
}

/// The price the quotes are laid around: the mid, shifted against the inventory.
pub open spec fn reservation(
    config: AvellanedaStoikovConfig,
    mid: Decimal,
    q: Decimal,
    var: Decimal,
) -> Option<Decimal> {
    match times(
        times(product(q, config.gamma), Some(var)),
        Some(whole(config.horizon_sec as int)),
    ) {
        None => None,
        Some(skew) => difference(mid, skew),
    }
}

/// Half the distance between the quotes.
pub open spec fn half_spread(mid: Decimal, base_spread_bps: u32) -> Option<Decimal> {
    over(product(mid, whole(base_spread_bps as int)), Some(whole(10_000)))
}

/// Half the distance between the quotes, or `None` where it cannot be represented.
pub fn try_half_spread(mid: Decimal, base_spread_bps: u32) -> (result: Option<Decimal>)
    ensures
        result == half_spread(mid, base_spread_bps),
        result is Some && mid@ >= 0 ==> result->0@ >= 0,
        exact_product(mid, whole(base_spread_bps as int)) && exact_quotient(
            product(mid, whole(base_spread_bps as int))->0,
            whole(10_000),
        ) ==> result is Some && result->0@ * 10_000 == mid@ * base_spread_bps,
{
    let widened = mid.checked_mul(Decimal::whole(base_spread_bps as i64))?;
    let result = widened.checked_div(Decimal::whole(10_000))?;
    proof {
        let (n, p) = (base_spread_bps as int, pow10(28));
        lemma_whole(n);
        lemma_whole(10_000);
        lemma_pow10_positive(28);
        let (m, w, r) = (mid@, widened@, result@);
        assert(w * p == m * (n * p) && r * (10_000 * p) == w * p ==> r * 10_000 == m * n)
            by (nonlinear_arith)
            requires
                p >= 1,
        ;
        assert(n * p >= 0) by (nonlinear_arith)
            requires
                n >= 0,
                p >= 1,
        ;
    }
    Some(result)
}

/// What a two-sided book update calls for.
pub open spec fn as_quote(state: AvellanedaStoikov, ctx: StrategyContext, mid: Price, ts: Timestamp)
    -> Option<(AvellanedaStoikov, Seq<Action>)> {
    if state.reading.samples_seen < WARMUP_COUNT {
        Some((state, Seq::empty()))
    } else {
        match requote_drift(
            state.last_requote_ts,
            state.last_quoted_mid,
            mid,
            ts,
            state.config.min_requote_interval_ms,
            state.config.level_step_bps,
        ) {
            None => None,
            Some(false) => Some((state, Seq::empty())),
            Some(true) => match (
                reservation(state.config, mid.0, ctx.position.size.0, state.reading.var),
                half_spread(mid.0, state.config.base_spread_bps),
            ) {
                (Some(r), Some(delta)) => match (difference(r, delta), sum(r, delta)) {
                    (Some(bid), Some(ask)) => Some(
                        (
                            AvellanedaStoikov {
                                last_requote_ts: Some(ts),
                                last_quoted_mid: Some(mid),
                                ..state
                            },
                            quoted_pair(
                                *ctx.symbol,
                                Price(bid),
                                Price(ask),
                                state.config.size_per_quote,
                            ),
                        ),
                    ),
                    _ => None,
                },
                _ => None,
            },
        }
    }
}

impl AvellanedaStoikov {
    /// The variance in use.
    pub fn current_var(&self) -> (result: Decimal)
        ensures
            result == self.reading.var,
    {
        self.reading.var
    }

    /// Returns the estimator has seen.
    pub fn samples_seen(&self) -> (result: u32)
        ensures
            result == self.reading.samples_seen,
    {
        self.reading.samples_seen
    }

    /// Takes the estimator's reading.
    pub fn set_reading(&mut self, reading: VolatilityReading)
        ensures
            *final(self) == (AvellanedaStoikov { reading, ..*old(self) }),
    {
        self.reading = reading;
    }

    /// The reservation price, or `None` where it cannot be represented. A long position
    /// does not raise it above the mid, a short one does not lower it, and none leaves it
    /// there.
    pub fn try_reservation(
        config: &AvellanedaStoikovConfig,
        mid: Decimal,
        q: Decimal,
        var: Decimal,
    ) -> (result: Option<Decimal>)
        ensures
            result == reservation(*config, mid, q, var),
            result is Some && mid@ >= 0 && config.gamma@ >= 0 && var@ >= 0 ==> {
                &&& q@ >= 0 ==> result->0@ <= mid@
                &&& q@ <= 0 ==> result->0@ >= mid@
            },
    {
        let horizon = Decimal::from_i128_with_scale(config.horizon_sec as i128, 0);
        proof {
            crate::decimal::lemma_whole(config.horizon_sec as int);
            crate::decimal::lemma_pow10_positive(28);
            let p = crate::decimal::pow10(28);
            let n = config.horizon_sec as int;
            assert(n * p >= 0) by (nonlinear_arith)
                requires
                    n >= 0,
                    p >= 1,
            ;
        }
        let skew = q.checked_mul(config.gamma)?.checked_mul(var)?.checked_mul(horizon)?;
        mid.checked_sub(skew)
    }

    fn quote(&mut self, ctx: &StrategyContext<'_>, mid: Price, ts: Timestamp) -> (result: Option<
        Vec<Action>,
    >)
        ensures
            follows(as_quote(*old(self), *ctx, mid, ts), result, *final(self)),
    {
        if !self.reading.is_warm() {
            return Some(Vec::new());
        }
        if !should_requote_drift(
            self.last_requote_ts,
            self.last_quoted_mid,
            mid,
            ts,
            self.config.min_requote_interval_ms,
            self.config.level_step_bps,
        )? {
            return Some(Vec::new());
        }
        let r = Self::try_reservation(
            &self.config,
            mid.0,
            ctx.position.size.0,
            self.reading.var,
        )?;
        let delta = try_half_spread(mid.0, self.config.base_spread_bps)?;
        self.last_requote_ts = Some(ts);
        self.last_quoted_mid = Some(mid);
        let bid = Price(r.checked_sub(delta)?);
        let ask = Price(r.checked_add(delta)?);
        Some(post_only_pair(ctx.symbol, bid, ask, self.config.size_per_quote))
    }
}

impl Strategy for AvellanedaStoikov {
    type Config = AvellanedaStoikovConfig;

    open spec fn initial(config: AvellanedaStoikovConfig) -> Option<AvellanedaStoikov> {
        Some(
            AvellanedaStoikov {
                config,
                reading: VolatilityReading { var: config.initial_var, samples_seen: 0 },
                last_requote_ts: None,
                last_quoted_mid: None,
            },
        )
    }

    open spec fn event_step(state: AvellanedaStoikov, ctx: StrategyContext, event: MarketEvent)
        -> Option<(AvellanedaStoikov, Seq<Action>)> {
        match event {
            MarketEvent::BookUpdate { snapshot } => match mid_strict(snapshot) {
                None => None,
                Some(None) => Some((state, Seq::empty())),
                Some(Some(mid)) => as_quote(state, ctx, mid, snapshot.ts),
            },
            _ => Some((state, Seq::empty())),
        }
    }

    open spec fn rejection_step(
        state: AvellanedaStoikov,
        ctx: StrategyContext,
        intent: QuoteIntent,
        reason: Seq<char>,
    ) -> Option<(AvellanedaStoikov, Seq<Action>)> {
        Some((state, Seq::empty()))
    }

    fn try_new(config: AvellanedaStoikovConfig) -> (result: Option<AvellanedaStoikov>) {
        Some(
            AvellanedaStoikov {
                config,
                reading: VolatilityReading::initial(config.initial_var),
                last_requote_ts: None,
                last_quoted_mid: None,
            },
        )
    }

    fn name(&self) -> (result: &str)
        ensures
            result@ == "avellaneda-stoikov"@,
    {
        "avellaneda-stoikov"
    }

    fn try_on_event(&mut self, ctx: &StrategyContext<'_>, event: &MarketEvent) -> (result: Option<
        Vec<Action>,
    >) {
        match event {
            MarketEvent::BookUpdate { snapshot } => match compute_mid_strict(snapshot)? {
                None => Some(Vec::new()),
                Some(mid) => self.quote(ctx, mid, snapshot.ts),
            },
            _ => Some(Vec::new()),
        }
    }

    fn try_on_quote_rejected(
        &mut self,
        ctx: &StrategyContext<'_>,
        intent: &QuoteIntent,
        reason: &str,
    ) -> (result: Option<Vec<Action>>) {
        Some(Vec::new())
    }
}

/// Nothing is quoted before the estimator is warm.
pub proof fn law_warmup_quotes_nothing(
    state: AvellanedaStoikov,
    ctx: StrategyContext,
    event: MarketEvent,
)
    requires
        state.reading.samples_seen < WARMUP_COUNT,
    ensures
        AvellanedaStoikov::event_step(state, ctx, event) matches Some((next, actions)) ==> next
            == state && actions.len() == 0,
{
}

/// The strategy either leaves its quotes alone or replaces both of them at once, the bid
/// half a spread below the reservation price and the ask half a spread above it.
pub proof fn law_quotes_come_in_pairs(
    state: AvellanedaStoikov,
    ctx: StrategyContext,
    event: MarketEvent,
)
    ensures
        AvellanedaStoikov::event_step(state, ctx, event) matches Some((next, actions)) ==> {
            ||| actions.len() == 0 && next == state
            ||| exists|mid: Price, bid: Price, ask: Price, r: Decimal, delta: Decimal|
                #![trigger quoted_pair(*ctx.symbol, bid, ask, state.config.size_per_quote),
                    reservation(state.config, mid.0, ctx.position.size.0, state.reading.var),
                    difference(r, delta)]
                actions == quoted_pair(*ctx.symbol, bid, ask, state.config.size_per_quote)
                    && reservation(
                    state.config,
                    mid.0,
                    ctx.position.size.0,
                    state.reading.var,
                ) == Some(r) && half_spread(mid.0, state.config.base_spread_bps) == Some(delta)
                    && difference(r, delta) == Some(bid.0) && sum(r, delta) == Some(ask.0)
        },
{
    if let MarketEvent::BookUpdate { snapshot } = event {
        if let Some(Some(mid)) = mid_strict(snapshot) {
            if let Some(r) = reservation(
                state.config,
                mid.0,
                ctx.position.size.0,
                state.reading.var,
            ) {
                if let Some(delta) = half_spread(mid.0, state.config.base_spread_bps) {
                    if let (Some(bid), Some(ask)) = (difference(r, delta), sum(r, delta)) {
                        let quotes = quoted_pair(
                            *ctx.symbol,
                            Price(bid),
                            Price(ask),
                            state.config.size_per_quote,
                        );
                        assert(quotes.len() == 3);
                    }
                }
            }
        }
    }
}

/// No event and no rejection calls for an order in another instrument.
pub proof fn law_quotes_its_instrument(
    state: AvellanedaStoikov,
    ctx: StrategyContext,
    event: MarketEvent,
    intent: QuoteIntent,
    reason: Seq<char>,
)
    ensures
        AvellanedaStoikov::event_step(state, ctx, event) matches Some((_, actions)) ==> keeps_to(
            actions,
            *ctx.symbol,
        ),
        AvellanedaStoikov::rejection_step(state, ctx, intent, reason) matches Some((_, actions))
            ==> keeps_to(actions, *ctx.symbol),
{
}

/// The quotes lie evenly around the reservation price, half a spread on either side of it.
pub proof fn law_quotes_straddle_the_reservation(
    state: AvellanedaStoikov,
    ctx: StrategyContext,
    mid: Price,
    ts: Timestamp,
    r: Decimal,
    delta: Decimal,
)
    requires
        reservation(state.config, mid.0, ctx.position.size.0, state.reading.var) == Some(r),
        half_spread(mid.0, state.config.base_spread_bps) == Some(delta),
        exact_difference(r, delta),
        exact_sum(r, delta),
    ensures
        as_quote(state, ctx, mid, ts) matches Some((next, actions)) ==> actions.len() > 0 ==> {
            let (bid, ask) = (actions[1]->Quote_0, actions[2]->Quote_0);
            &&& actions.len() == 3 && actions[0] is CancelAll
            &&& bid.side is Bid && bid.price.0@ == r@ - delta@
            &&& ask.side is Ask && ask.price.0@ == r@ + delta@
            &&& next.last_quoted_mid == Some(mid) && next.last_requote_ts == Some(ts)
        },
{
}

/// The reservation price leaves the mid by inventory, risk aversion, variance and horizon
/// multiplied together, against the inventory.
pub proof fn law_reservation_leans_against_inventory(
    config: AvellanedaStoikovConfig,
    mid: Decimal,
    q: Decimal,
    var: Decimal,
    risk: Decimal,
    rate: Decimal,
    skew: Decimal,
)
    requires
        product(q, config.gamma) == Some(risk),
        risk@ * pow10(28) == q@ * config.gamma@,
        product(risk, var) == Some(rate),
        rate@ * pow10(28) == risk@ * var@,
        product(rate, whole(config.horizon_sec as int)) == Some(skew),
        skew@ == rate@ * config.horizon_sec,
        exact_difference(mid, skew),
    ensures
        reservation(config, mid, q, var) is Some,
        (mid@ - reservation(config, mid, q, var)->0@) * pow10(28) * pow10(28) == q@ * config.gamma@
            * var@ * config.horizon_sec,
{
    let (p, h) = (pow10(28), config.horizon_sec as int);
    let (x, g, v, k, t, d) = (q@, config.gamma@, var@, risk@, rate@, skew@);
    assert(d * p * p == x * g * v * h) by (nonlinear_arith)
        requires
            k * p == x * g,
            t * p == k * v,
            d == t * h,
    ;
}

} // verus!
