//! Readings of a volatility estimator.
//!
//! The estimator works in floating point, so it lives outside this library. A strategy
//! that needs it says which mid to feed it, and takes its reading before each event.

use crate::decimal::Decimal;
use crate::market::{MarketEvent, Price, Timestamp};
use crate::quoting::{compute_mid_strict, mid_strict};
use vstd::prelude::*;

verus! {

/// Samples an estimator must have seen before its variance is used.
pub const WARMUP_COUNT: u32 = 30;

/// What a volatility estimator currently says.
#[derive(Clone, Copy, Debug)]
pub struct VolatilityReading {
    /// Variance of log returns.
    pub var: Decimal,
    /// Returns seen so far.
    pub samples_seen: u32,
}

impl VolatilityReading {
    /// The reading of an estimator that has seen nothing.
    pub fn initial(var: Decimal) -> (result: VolatilityReading)
        ensures
            result == (VolatilityReading { var, samples_seen: 0 }),
    {
        VolatilityReading { var, samples_seen: 0 }
    }

    /// Whether the variance may be used.
    pub fn is_warm(&self) -> (result: bool)
        ensures
            result == (self.samples_seen >= WARMUP_COUNT),
    {
        self.samples_seen >= WARMUP_COUNT
    }
}

/// What an event feeds the estimator: the mid of a two-sided book update and its time.
/// The outer `None` is a mid that cannot be represented.
pub open spec fn estimator_input(event: MarketEvent) -> Option<Option<(Price, Timestamp)>> {
    match event {
        MarketEvent::BookUpdate { snapshot } => match mid_strict(snapshot) {
            None => None,
            Some(None) => Some(None),
            Some(Some(mid)) => Some(Some((mid, snapshot.ts))),
        },
        _ => Some(None),
    }
}

/// What an event feeds the estimator; see [`estimator_input`].
pub fn try_estimator_input(event: &MarketEvent) -> (result: Option<Option<(Price, Timestamp)>>)
    ensures
        result == estimator_input(*event),
{
    match event {
        MarketEvent::BookUpdate { snapshot } => match compute_mid_strict(snapshot)? {
            None => Some(None),
            Some(mid) => Some(Some((mid, snapshot.ts))),
        },
        _ => Some(None),
    }
}

} // verus!
