//! Compares a resting quote with its target and finds the smallest set of actions
//! that closes the gap.

use crate::decimal::{
    absolute, difference, exact_difference, exact_product, lemma_pow10_positive, magnitude, pow10,
    product, Decimal,
};
use crate::market::{Price, QuoteId, QuoteIntent, Size};
use crate::spread_scalp::resting_orders::Resting;
use crate::strategy::Action;
use vstd::prelude::*;

verus! {

/// Outcome of comparing one side.
#[derive(Clone, Copy, Debug, PartialEq, Eq, Structural)]
pub enum DiffDecision {
    /// The resting quote matches; emit nothing.
    Unchanged,
    /// Nothing resting; place.
    Place,
    /// The resting quote differs; cancel this id and place.
    Replace(QuoteId),
    /// The resting quote differs but has no venue id yet; place only.
    PlaceShadow,
}

/// The decision for a side: unchanged where the price is within the tolerance and
/// the size is equal, otherwise replaced.
pub open spec fn decision(
    resting: Option<Resting>,
    target_price: Price,
    target_size: Size,
    price_tolerance_ticks: Decimal,
    tick_size: Decimal,
) -> Option<DiffDecision> {
    match resting {
        None => Some(DiffDecision::Place),
        Some(r) => match (
            product(price_tolerance_ticks, tick_size),
            difference(r.price.0, target_price.0),
        ) {
            (Some(tolerance), Some(gap)) => if absolute(gap)@ <= tolerance@ && r.size.0@
                == target_size.0@ {
                Some(DiffDecision::Unchanged)
            } else {
                match r.id {
                    Some(id) => Some(DiffDecision::Replace(id)),
                    None => Some(DiffDecision::PlaceShadow),
                }
            },
            _ => None,
        },
    }
}

/// The actions that carry a decision out.
pub open spec fn carried_out(decision: DiffDecision, intent: QuoteIntent) -> Seq<Action> {
    match decision {
        DiffDecision::Unchanged => Seq::empty(),
        DiffDecision::Place | DiffDecision::PlaceShadow => seq![Action::Quote(intent)],
        DiffDecision::Replace(id) => seq![Action::Cancel(id), Action::Quote(intent)],
    }
}

/// Cancelling a side that is no longer wanted.
pub open spec fn dropped(resting: Option<Resting>) -> Seq<Action> {
    match resting {
        Some(r) => match r.id {
            Some(id) => seq![Action::Cancel(id)],
            None => Seq::empty(),
        },
        None => Seq::empty(),
    }
}

/// Compares a side with its target, or returns `None` where a number it needs
/// cannot be represented; see [`decision`].
pub fn try_diff(
    resting: Option<&Resting>,
    target_price: Price,
    target_size: Size,
    price_tolerance_ticks: Decimal,
    tick_size: Decimal,
) -> (result: Option<DiffDecision>)
    ensures
        result == decision(
            match resting {
                Some(r) => Some(*r),
                None => None,
            },
            target_price,
            target_size,
            price_tolerance_ticks,
            tick_size,
        ),
        resting is None ==> result == Some(DiffDecision::Place),
        resting matches Some(r) ==> exact_difference(r.price.0, target_price.0) && exact_product(
            price_tolerance_ticks,
            tick_size,
        ) ==> result == Some(
            if magnitude(r.price.0@ - target_price.0@) * pow10(28) <= price_tolerance_ticks@
                * tick_size@ && r.size.0@ == target_size.0@ {
                DiffDecision::Unchanged
            } else {
                match r.id {
                    Some(id) => DiffDecision::Replace(id),
                    None => DiffDecision::PlaceShadow,
                }
            },
        ),
{
    match resting {
        None => Some(DiffDecision::Place),
        Some(r) => {
            let tol = price_tolerance_ticks.checked_mul(tick_size)?;
            let price_diff = r.price.0.checked_sub(target_price.0)?.abs();
            proof {
                lemma_pow10_positive(28);
                let (v, m, p) = (price_diff@, tol@, pow10(28));
                assert((v <= m) == (v * p <= m * p)) by (nonlinear_arith)
                    requires
                        p >= 1,
                ;
            }
            let size_match = r.size.0.equals(target_size.0);
            if price_diff.is_at_most(tol) && size_match {
                Some(DiffDecision::Unchanged)
            } else {
                match r.id {
                    Some(id) => Some(DiffDecision::Replace(id)),
                    None => Some(DiffDecision::PlaceShadow),
                }
            }
        },
    }
}

/// Compares a side with its target; see [`decision`].
pub fn diff(
    resting: Option<&Resting>,
    target_price: Price,
    target_size: Size,
    price_tolerance_ticks: Decimal,
    tick_size: Decimal,
) -> (result: DiffDecision)
    requires
        decision(
            match resting {
                Some(r) => Some(*r),
                None => None,
            },
            target_price,
            target_size,
            price_tolerance_ticks,
            tick_size,
        ) is Some,
    ensures
        decision(
            match resting {
                Some(r) => Some(*r),
                None => None,
            },
            target_price,
            target_size,
            price_tolerance_ticks,
            tick_size,
        ) == Some(result),
{
    try_diff(resting, target_price, target_size, price_tolerance_ticks, tick_size).unwrap()
}

/// The actions that carry a decision out; see [`carried_out`].
pub fn apply(decision: DiffDecision, intent: QuoteIntent) -> (result: Vec<Action>)
    ensures
        result@ == carried_out(decision, intent),
{
    match decision {
        DiffDecision::Unchanged => Vec::new(),
        DiffDecision::Place | DiffDecision::PlaceShadow => vec![Action::Quote(intent)],
        DiffDecision::Replace(id) => vec![Action::Cancel(id), Action::Quote(intent)],
    }
}

/// Cancels a side that is no longer wanted. A quote in flight has no id to cancel.
pub fn drop_side(resting: Option<&Resting>) -> (result: Vec<Action>)
    ensures
        result@ == dropped(
            match resting {
                Some(r) => Some(*r),
                None => None,
            },
        ),
{
    match resting {
        Some(r) => match r.id {
            Some(id) => vec![Action::Cancel(id)],
            None => Vec::new(),
        },
        None => Vec::new(),
    }
}

/// A side is quoted again exactly where something has to change, and an old quote
/// is cancelled before, never after, its replacement.
pub proof fn law_actions_are_minimal(
    resting: Option<Resting>,
    intent: QuoteIntent,
    price_tolerance_ticks: Decimal,
    tick_size: Decimal,
)
    requires
        decision(resting, intent.price, intent.size, price_tolerance_ticks, tick_size) is Some,
    ensures
        ({
            let verdict = decision(
                resting,
                intent.price,
                intent.size,
                price_tolerance_ticks,
                tick_size,
            )->0;
            let actions = carried_out(verdict, intent);
            &&& actions.len() == 0 <==> verdict == DiffDecision::Unchanged
            &&& actions.len() > 0 ==> actions.last() == Action::Quote(intent)
            &&& actions.len() <= 2
            &&& actions.len() == 2 ==> resting is Some && (resting->0).id is Some && actions[0]
                == Action::Cancel(((resting->0).id)->0)
        }),
{
}

/// A resting quote stands while its price is within the tolerance of the target and its size is
/// the wanted one.
pub proof fn law_quotes_stand_within_the_tolerance(
    resting: Resting,
    target_price: Price,
    target_size: Size,
    price_tolerance_ticks: Decimal,
    tick_size: Decimal,
    tolerance: Decimal,
    gap: Decimal,
)
    requires
        product(price_tolerance_ticks, tick_size) == Some(tolerance),
        difference(resting.price.0, target_price.0) == Some(gap),
    ensures
        decision(
            Some(resting),
            target_price,
            target_size,
            price_tolerance_ticks,
            tick_size,
        ) == Some(DiffDecision::Unchanged) <==> absolute(gap)@ <= tolerance@ && resting.size.0@
            == target_size.0@,
        decision(None, target_price, target_size, price_tolerance_ticks, tick_size) == Some(
            DiffDecision::Place,
        ),
{
}

} // verus!
