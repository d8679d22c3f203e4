//! Take-profit / stop-loss policy, evaluated on every event.
//!
//! Triggers are measured in bps of position notional, so the position size
//! cancels out and one threshold works at any notional.

use crate::decimal::{
    absolute, difference, exact_difference, lemma_whole, negated, pow10, product, quotient, times,
    whole, Decimal,
};
use crate::market::{taker_order, Position, Price, Side, Size, Symbol, TimeInForce};
use crate::quoting::{
    fires_at, lemma_fires_at, lemma_reads_exactly, make_intent, measures_exactly, reads_exactly,
    try_bps_of,
};
use crate::strategy::Action;
use vstd::prelude::*;

verus! {

/// What the risk policy decided.
#[derive(Clone, Copy, Debug, PartialEq, Eq)]
pub enum RiskDecision {
    /// Flat, or inside both bounds: do nothing.
    Hold,
    /// Close the position with an IOC at the opposing touch.
    Close {
        /// Reducing side (long: ask, short: bid).
        side: Side,
        /// Quantity to close, the whole position.
        qty: Size,
        /// Which bound was crossed.
        reason: CloseReason,
    },
}

/// Why a close fired.
#[derive(Clone, Copy, Debug, PartialEq, Eq, Structural)]
pub enum CloseReason {
    /// Unrealized profit reached the take-profit threshold.
    TakeProfit,
    /// Unrealized loss reached the stop-loss threshold.
    StopLoss,
}

/// Configuration for the risk policy.
#[derive(Clone, Copy, Debug)]
pub struct RiskConfig {
    /// Take-profit threshold in bps of position notional. `0` disables it and
    /// lets `take_profit_usdt_legacy` apply.
    pub take_profit_bps: u32,
    /// Stop-loss threshold in bps of position notional. `0` disables it.
    pub stop_loss_bps: u32,
    /// Absolute take-profit, honoured only while `take_profit_bps` is `0`.
    pub take_profit_usdt_legacy: Decimal,
}

/// The side that reduces a position of this size, which is not zero.
pub open spec fn reducing_side(size: Decimal) -> Side {
    if size@ > 0 {
        Side::Ask
    } else {
        Side::Bid
    }
}

/// Closing the whole position for `reason`.
pub open spec fn full_close(position: Position, reason: CloseReason) -> RiskDecision {
    RiskDecision::Close {
        side: reducing_side(position.size.0),
        qty: Size(absolute(position.size.0)),
        reason,
    }
}

/// Movement of the mid from the entry, positive in favour of the position.
pub open spec fn favourable_drift(position: Position, mid: Price) -> Option<Decimal> {
    match difference(mid.0, position.avg_entry.0) {
        None => None,
        Some(drift) => Some(
            if position.size.0@ > 0 {
                drift
            } else {
                negated(drift)
            },
        ),
    }
}

/// The policy's decision on a position at a mid price.
pub open spec fn risk_decision(position: Position, mid: Price, cfg: RiskConfig) -> Option<
    RiskDecision,
> {
    if position.size.0@ == 0 || position.avg_entry.0@ <= 0 {
        Some(RiskDecision::Hold)
    } else {
        match favourable_drift(position, mid) {
            None => None,
            Some(drift) => match times(
                quotient(drift, position.avg_entry.0),
                Some(whole(10_000)),
            ) {
                None => None,
                Some(drift_bps) => {
                    let stopped = if cfg.stop_loss_bps > 0 && negated(drift_bps)@ >= whole(
                        cfg.stop_loss_bps as int,
                    )@ {
                        full_close(position, CloseReason::StopLoss)
                    } else {
                        RiskDecision::Hold
                    };
                    if cfg.take_profit_bps > 0 {
                        if drift_bps@ >= whole(cfg.take_profit_bps as int)@ {
                            Some(full_close(position, CloseReason::TakeProfit))
                        } else {
                            Some(stopped)
                        }
                    } else if cfg.take_profit_usdt_legacy@ > 0 {
                        match product(drift, absolute(position.size.0)) {
                            None => None,
                            Some(profit) => if profit@ >= cfg.take_profit_usdt_legacy@ {
                                Some(full_close(position, CloseReason::TakeProfit))
                            } else {
                                Some(stopped)
                            },
                        }
                    } else {
                        Some(stopped)
                    }
                },
            },
        }
    }
}

/// Whether a decision closes the position for this reason.
pub open spec fn closes_for(decision: RiskDecision, why: CloseReason) -> bool {
    decision matches RiskDecision::Close { reason, .. } && reason == why
}

/// Whether there is a position whose drift from its average entry is read without rounding.
pub open spec fn drift_is_exact(position: Position, mid: Price) -> bool {
    let drift = difference(mid.0, position.avg_entry.0);
    &&& position.size.0@ != 0
    &&& position.avg_entry.0@ > 0
    &&& exact_difference(mid.0, position.avg_entry.0)
    &&& measures_exactly(drift->0, position.avg_entry.0)
    &&& measures_exactly(negated(drift->0), position.avg_entry.0)
}

/// Evaluates the policy, or returns `None` where a number it needs cannot be
/// represented.
pub fn try_evaluate(position: &Position, mid: Price, cfg: RiskConfig) -> (result: Option<
    RiskDecision,
>)
    ensures
        result == risk_decision(*position, mid, cfg),
        result is Some && drift_is_exact(*position, mid) ==> {
            let avg = position.avg_entry.0@;
            let gain = if position.size.0@ > 0 {
                mid.0@ - avg
            } else {
                avg - mid.0@
            };
            &&& cfg.take_profit_bps > 0 ==> fires_at(
                gain,
                avg,
                cfg.take_profit_bps as int,
                closes_for(result->0, CloseReason::TakeProfit),
            )
            &&& closes_for(result->0, CloseReason::StopLoss) ==> cfg.stop_loss_bps > 0 && fires_at(
                -gain,
                avg,
                cfg.stop_loss_bps as int,
                true,
            )
            &&& result->0 is Hold && cfg.stop_loss_bps > 0 ==> fires_at(
                -gain,
                avg,
                cfg.stop_loss_bps as int,
                false,
            )
        },
{
    if position.size.0.is_zero() || !position.avg_entry.0.is_positive() {
        return Some(RiskDecision::Hold);
    }
    let long = position.size.0.is_positive();
    let side = if long {
        Side::Ask
    } else {
        Side::Bid
    };
    let qty = Size(position.size.0.abs());
    let drift = mid.0.checked_sub(position.avg_entry.0)?;
    let signed_drift = if long {
        drift
    } else {
        drift.negate()
    };
    let drift_bps = try_bps_of(signed_drift, position.avg_entry.0)?;
    proof {
        if drift_is_exact(*position, mid) {
            let (part, base) = (signed_drift@, position.avg_entry.0@);
            lemma_fires_at(part, base, drift_bps@, cfg.take_profit_bps as int);
            lemma_fires_at(part, base, drift_bps@, -cfg.stop_loss_bps);
            lemma_whole(cfg.stop_loss_bps as int);
            lemma_whole(-cfg.stop_loss_bps);
            assert((-(cfg.stop_loss_bps as int)) * pow10(28) == -(cfg.stop_loss_bps as int * pow10(28)))
                by (nonlinear_arith);
        }
    }
    if cfg.take_profit_bps > 0 {
        if drift_bps.is_at_least(Decimal::whole(cfg.take_profit_bps as i64)) {
            return Some(RiskDecision::Close { side, qty, reason: CloseReason::TakeProfit });
        }
    } else if cfg.take_profit_usdt_legacy.is_positive() {
        let unrealized = signed_drift.checked_mul(qty.0)?;
        if unrealized.is_at_least(cfg.take_profit_usdt_legacy) {
            return Some(RiskDecision::Close { side, qty, reason: CloseReason::TakeProfit });
        }
    }
    if cfg.stop_loss_bps > 0 {
        if drift_bps.negate().is_at_least(Decimal::whole(cfg.stop_loss_bps as i64)) {
            return Some(RiskDecision::Close { side, qty, reason: CloseReason::StopLoss });
        }
    }
    Some(RiskDecision::Hold)
}

/// Evaluates the policy.
pub fn evaluate(position: &Position, mid: Price, cfg: RiskConfig) -> (result: RiskDecision)
    requires
        risk_decision(*position, mid, cfg) is Some,
    ensures
        risk_decision(*position, mid, cfg) == Some(result),
{
    try_evaluate(position, mid, cfg).unwrap()
}

/// The touch on the other side of the book, where an order on `side` takes.
pub open spec fn opposing_touch(side: Side, best_bid: Price, best_ask: Price) -> Price {
    match side {
        Side::Bid => best_ask,
        Side::Ask => best_bid,
    }
}

/// Cancels everything and closes this much at the opposing touch.
pub open spec fn flatten(
    symbol: Symbol,
    side: Side,
    qty: Decimal,
    best_bid: Price,
    best_ask: Price,
) -> Seq<Action> {
    seq![
        Action::CancelAll,
        Action::Quote(
            taker_order(symbol, side, opposing_touch(side, best_bid, best_ask).0, qty),
        ),
    ]
}

/// The IOC order that closes `qty` at the opposing touch.
pub fn build_close(symbol: &Symbol, side: Side, qty: Size, best_bid: Price, best_ask: Price)
    -> (result: Action)
    ensures
        result == Action::Quote(
            taker_order(*symbol, side, opposing_touch(side, best_bid, best_ask).0, qty.0),
        ),
{
    let price = match side {
        Side::Bid => best_ask,
        Side::Ask => best_bid,
    };
    Action::Quote(make_intent(symbol, side, price, qty, TimeInForce::IOC))
}

/// A close reduces the position: it trades the whole size, on the side against it,
/// and nothing is closed on a flat position.
pub proof fn law_close_flattens(position: Position, mid: Price, cfg: RiskConfig)
    requires
        risk_decision(position, mid, cfg) is Some,
    ensures
        risk_decision(position, mid, cfg)->0 matches RiskDecision::Close { side, qty, .. } ==> {
            &&& position.size.0@ != 0
            &&& qty.0 == absolute(position.size.0)
            &&& side == (if position.size.0@ > 0 {
                Side::Ask
            } else {
                Side::Bid
            })
        },
{
}

/// With both thresholds and the absolute take-profit off, the policy never closes.
pub proof fn law_disabled_policy_holds(position: Position, mid: Price, cfg: RiskConfig)
    requires
        cfg.take_profit_bps == 0,
        cfg.stop_loss_bps == 0,
        cfg.take_profit_usdt_legacy@ <= 0,
        risk_decision(position, mid, cfg) is Some,
    ensures
        risk_decision(position, mid, cfg)->0 is Hold,
{
}

/// A close sells into the best bid or buys from the best ask.
pub proof fn law_close_takes_the_other_touch(
    symbol: Symbol,
    qty: Decimal,
    best_bid: Price,
    best_ask: Price,
)
    ensures
        flatten(symbol, Side::Ask, qty, best_bid, best_ask) == seq![
            Action::CancelAll,
            Action::Quote(taker_order(symbol, Side::Ask, best_bid.0, qty)),
        ],
        flatten(symbol, Side::Bid, qty, best_bid, best_ask) == seq![
            Action::CancelAll,
            Action::Quote(taker_order(symbol, Side::Bid, best_ask.0, qty)),
        ],
{
}

/// The policy closes for profit exactly where the position has gained its threshold over the
/// average entry, and for loss exactly where it has lost its other threshold: for a long by the
/// mid over the entry, for a short by the entry over the mid.
pub proof fn law_policy_measures_the_gain(
    position: Position,
    mid: Price,
    cfg: RiskConfig,
    moved: Decimal,
    gain: Decimal,
    gain_bps: Decimal,
)
    requires
        position.size.0@ != 0,
        difference(mid.0, position.avg_entry.0) == Some(moved),
        moved@ == mid.0@ - position.avg_entry.0@,
        position.size.0@ > 0 ==> gain == moved,
        position.size.0@ < 0 ==> gain == negated(moved) && gain@ == -moved@,
        reads_exactly(gain, position.avg_entry.0, gain_bps),
        negated(gain_bps)@ == -gain_bps@,
        cfg.take_profit_bps > 0,
    ensures
        ({
            let avg = position.avg_entry.0@;
            let made = if position.size.0@ > 0 {
                mid.0@ - avg
            } else {
                avg - mid.0@
            };
            let decision = risk_decision(position, mid, cfg);
            &&& decision is Some
            &&& closes_for(decision->0, CloseReason::TakeProfit) <==> made * 10_000
                >= cfg.take_profit_bps * avg
            &&& closes_for(decision->0, CloseReason::StopLoss) <==> cfg.stop_loss_bps > 0 && -made
                * 10_000 >= cfg.stop_loss_bps * avg && made * 10_000 < cfg.take_profit_bps * avg
        }),
{
    let bps = cfg.stop_loss_bps as int;
    lemma_reads_exactly(gain, position.avg_entry.0, gain_bps, cfg.take_profit_bps as int);
    lemma_reads_exactly(gain, position.avg_entry.0, gain_bps, -bps);
    lemma_whole(cfg.take_profit_bps as int);
    lemma_whole(bps);
    assert((-bps) * pow10(28) == -(bps * pow10(28))) by (nonlinear_arith);
    assert((-bps) * position.avg_entry.0@ == -(bps * position.avg_entry.0@)) by (nonlinear_arith);
}

} // verus!
