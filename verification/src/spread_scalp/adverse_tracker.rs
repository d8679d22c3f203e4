//! Adverse-selection tracker: measures how far the mid drifts after a fill and
//! widens the spread threshold while fills are toxic.
//!
//! Each fill schedules a look at the mid some time later. The drift against the
//! fill, in bps of the fill price, is folded into a moving average; the excess of
//! the average over a threshold, up to a cap, is the surcharge.

use crate::decimal::{
    difference, exact_difference, lemma_whole, lesser, over, plus, pow10, product, quotient, sum,
    times, whole, Decimal,
};
use crate::market::{Price, Side, Timestamp};
use crate::quoting::{
    capped_product, measures_exactly, reads_bps, reads_exactly, saturating_product, try_bps_of,
};
use std::collections::VecDeque;
use vstd::prelude::*;

verus! {

/// One fill awaiting its look at the mid.
#[derive(Clone, Copy, Debug)]
pub struct PendingFill {
    /// Fill time.
    pub fill_ts: Timestamp,
    /// When the look is due.
    pub snapshot_due_ts: Timestamp,
    /// Side filled (bid: we bought, adverse if the mid drops).
    pub side: Side,
    /// Fill price.
    pub fill_price: Price,
}

/// Configuration for the adverse-selection tracker.
#[derive(Clone, Copy, Debug)]
pub struct AdverseConfig {
    /// Time between a fill and its look at the mid, in milliseconds. `0` disables
    /// the tracker.
    pub snapshot_window_ms: u64,
    /// Half-life of the moving average, in fills.
    pub ema_half_life_fills: u32,
    /// Average drift, in bps, above which the surcharge starts.
    pub threshold_bps: Decimal,
    /// Largest surcharge in bps.
    pub max_widen_bps: u32,
}

impl AdverseConfig {
    /// Sensible defaults, usable directly on most symbols.
    pub fn sensible() -> (result: AdverseConfig)
        ensures
            result == (AdverseConfig {
                snapshot_window_ms: 5_000,
                ema_half_life_fills: 10,
                threshold_bps: whole(3),
                max_widen_bps: 10,
            }),
    {
        AdverseConfig {
            snapshot_window_ms: 5_000,
            ema_half_life_fills: 10,
            threshold_bps: Decimal::whole(3),
            max_widen_bps: 10,
        }
    }

    /// A config that turns the tracker off: the surcharge is always zero.
    pub fn disabled() -> (result: AdverseConfig)
        ensures
            result == (AdverseConfig {
                snapshot_window_ms: 0,
                ema_half_life_fills: 0,
                threshold_bps: whole(0),
                max_widen_bps: 0,
            }),
    {
        AdverseConfig {
            snapshot_window_ms: 0,
            ema_half_life_fills: 0,
            threshold_bps: Decimal::zero(),
            max_widen_bps: 0,
        }
    }
}

/// The adverse tracker.
#[derive(Debug)]
pub struct AdverseTracker {
    /// Settings.
    pub cfg: AdverseConfig,
    /// Fills awaiting their look at the mid, oldest first.
    pub pending: VecDeque<PendingFill>,
    /// Moving average of the drift against fills, in bps. Positive is toxic.
    pub ema_adverse_bps: Decimal,
    /// Whether any fill has been folded into the average.
    pub seeded: bool,
    /// Time of the last fill recorded.
    pub last_fill: Option<Timestamp>,
}

/// Mathematical content of an [`AdverseTracker`].
#[verifier::ext_equal]
pub struct AdverseState {
    /// Settings.
    pub cfg: AdverseConfig,
    /// Fills awaiting their look at the mid, oldest first.
    pub pending: Seq<PendingFill>,
    /// Moving average of the drift against fills, in bps.
    pub ema_adverse_bps: Decimal,
    /// Whether any fill has been folded into the average.
    pub seeded: bool,
    /// Time of the last fill recorded.
    pub last_fill: Option<Timestamp>,
}

impl View for AdverseTracker {
    type V = AdverseState;

    open spec fn view(&self) -> AdverseState {
        AdverseState {
            cfg: self.cfg,
            pending: self.pending@,
            ema_adverse_bps: self.ema_adverse_bps,
            seeded: self.seeded,
            last_fill: self.last_fill,
        }
    }
}

/// A tracker that has seen nothing.
pub open spec fn fresh(cfg: AdverseConfig) -> AdverseState {
    AdverseState {
        cfg,
        pending: Seq::empty(),
        ema_adverse_bps: whole(0),
        seeded: false,
        last_fill: None,
    }
}

/// The tracker after a fill.
pub open spec fn with_fill(
    state: AdverseState,
    fill_ts: Timestamp,
    side: Side,
    fill_price: Price,
) -> AdverseState {
    if state.cfg.snapshot_window_ms == 0 {
        state
    } else {
        let due = fill_ts.0 + capped_product(state.cfg.snapshot_window_ms as int, 1_000_000);
        let capped = if due > u64::MAX {
            u64::MAX
        } else {
            due as u64
        };
        AdverseState {
            pending: state.pending.push(
                PendingFill { fill_ts, snapshot_due_ts: Timestamp(capped), side, fill_price },
            ),
            last_fill: Some(fill_ts),
            ..state
        }
    }
}

/// The moving average after one more sample: the first sample itself, then
/// `(2 x sample + (n - 1) x average) / (n + 1)` for a half-life of `n` fills.
pub open spec fn average_with(state: AdverseState, sample: Decimal) -> Option<Decimal> {
    let n = if state.cfg.ema_half_life_fills == 0 {
        1
    } else {
        state.cfg.ema_half_life_fills as int
    };
    if !state.seeded {
        Some(sample)
    } else if n + 1 > u32::MAX {
        None
    } else {
        over(
            plus(
                product(whole(2), sample),
                times(difference(whole(n + 1), whole(2)), Some(state.ema_adverse_bps)),
            ),
            Some(whole(n + 1)),
        )
    }
}

/// How far the mid moved against a fill.
pub open spec fn against(fill: PendingFill, mid: Price) -> Option<Decimal> {
    match fill.side {
        Side::Bid => difference(fill.fill_price.0, mid.0),
        Side::Ask => difference(mid.0, fill.fill_price.0),
    }
}

/// The tracker once the drift of `fill` at `mid` is folded in.
pub open spec fn folded(state: AdverseState, fill: PendingFill, mid: Price) -> Option<AdverseState> {
    match against(fill, mid) {
        None => None,
        Some(signed) => if fill.fill_price.0@ <= 0 {
            Some(state)
        } else {
            match times(quotient(signed, fill.fill_price.0), Some(whole(10_000))) {
                None => None,
                Some(sample) => match average_with(state, sample) {
                    None => None,
                    Some(ema) => Some(
                        AdverseState { ema_adverse_bps: ema, seeded: true, ..state },
                    ),
                },
            }
        },
    }
}

/// Whether the look at the mid after a fill is due.
pub open spec fn is_due(fill: PendingFill, now: Timestamp) -> bool {
    now.0 >= fill.snapshot_due_ts.0
}

/// The tracker after going through `fills` in order: those whose look is due are folded
/// in, the others are queued again.
pub open spec fn walked(
    state: AdverseState,
    fills: Seq<PendingFill>,
    now: Timestamp,
    mid: Price,
) -> Option<AdverseState>
    decreases fills.len(),
{
    if fills.len() == 0 {
        Some(state)
    } else {
        match walked(state, fills.drop_last(), now, mid) {
            None => None,
            Some(next) => if is_due(fills.last(), now) {
                folded(next, fills.last(), mid)
            } else {
                Some(AdverseState { pending: next.pending.push(fills.last()), ..next })
            },
        }
    }
}

/// The tracker once every fill whose look is due has been folded in, oldest first.
pub open spec fn settled(state: AdverseState, now: Timestamp, mid: Price) -> Option<AdverseState> {
    walked(AdverseState { pending: Seq::empty(), ..state }, state.pending, now, mid)
}

/// The tracker after an event at time `now` with this mid.
pub open spec fn after_snapshots(state: AdverseState, now: Timestamp, mid: Price) -> Option<
    AdverseState,
> {
    if state.cfg.snapshot_window_ms == 0 || mid.0@ <= 0 {
        Some(state)
    } else {
        settled(state, now, mid)
    }
}

/// The surcharge: the average's excess over the threshold, between zero and the
/// cap.
pub open spec fn widening(state: AdverseState) -> Option<Decimal> {
    if state.cfg.max_widen_bps == 0 || !state.seeded {
        Some(whole(0))
    } else {
        match difference(state.ema_adverse_bps, state.cfg.threshold_bps) {
            None => None,
            Some(excess) => Some(
                if excess@ <= 0 {
                    whole(0)
                } else {
                    lesser(excess, whole(state.cfg.max_widen_bps as int))
                },
            ),
        }
    }
}

impl AdverseTracker {
    /// A tracker that has seen nothing.
    pub fn new(cfg: AdverseConfig) -> (result: AdverseTracker)
        ensures
            result@ == fresh(cfg),
    {
        AdverseTracker {
            cfg,
            pending: VecDeque::new(),
            ema_adverse_bps: Decimal::zero(),
            seeded: false,
            last_fill: None,
        }
    }

    /// Replaces the settings and keeps everything else.
    pub fn set_config(&mut self, cfg: AdverseConfig)
        ensures
            final(self)@ == (AdverseState { cfg, ..old(self)@ }),
    {
        self.cfg = cfg;
    }

    /// Records a fill and schedules its look at the mid. Does nothing while the
    /// tracker is off.
    pub fn record_fill(&mut self, fill_ts: Timestamp, side: Side, fill_price: Price)
        ensures
            final(self)@ == with_fill(old(self)@, fill_ts, side, fill_price),
    {
        if self.cfg.snapshot_window_ms == 0 {
            return;
        }
        let window_ns: u64 = saturating_product(self.cfg.snapshot_window_ms, 1_000_000);
        let due_ns: u64 = fill_ts.0.saturating_add(window_ns);
        self.pending.push_back(
            PendingFill { fill_ts, snapshot_due_ts: Timestamp(due_ns), side, fill_price },
        );
        self.last_fill = Some(fill_ts);
    }

    fn fold_fill(&mut self, fill: PendingFill, mid: Price) -> (result: Option<()>)
        ensures
            match folded(old(self)@, fill, mid) {
                Some(state) => result is Some && final(self)@ == state,
                None => result is None,
            },
            result is Some && fill.fill_price.0@ > 0 && !old(self).seeded ==> {
                let price = fill.fill_price.0;
                let first = final(self).ema_adverse_bps@;
                &&& final(self).seeded
                &&& fill.side is Bid && exact_difference(price, mid.0) && measures_exactly(
                    difference(price, mid.0)->0,
                    price,
                ) ==> reads_bps(price@ - mid.0@, price@, first)
                &&& fill.side is Ask && exact_difference(mid.0, price) && measures_exactly(
                    difference(mid.0, price)->0,
                    price,
                ) ==> reads_bps(mid.0@ - price@, price@, first)
            },
    {
        let signed = match fill.side {
            Side::Bid => fill.fill_price.0.checked_sub(mid.0)?,
            Side::Ask => mid.0.checked_sub(fill.fill_price.0)?,
        };
        if !fill.fill_price.0.is_positive() {
            return Some(());
        }
        let adverse_bps = try_bps_of(signed, fill.fill_price.0)?;
        if !self.seeded {
            self.ema_adverse_bps = adverse_bps;
            self.seeded = true;
            return Some(());
        }
        let n: u32 = if self.cfg.ema_half_life_fills == 0 {
            1
        } else {
            self.cfg.ema_half_life_fills
        };
        let denominator: u32 = n.checked_add(1)?;
        let two = Decimal::whole(2);
        let den = Decimal::whole(denominator as i64);
        let fresh_part = two.checked_mul(adverse_bps)?;
        let kept_part = den.checked_sub(two)?.checked_mul(self.ema_adverse_bps)?;
        let ema = fresh_part.checked_add(kept_part)?.checked_div(den)?;
        self.ema_adverse_bps = ema;
        Some(())
    }

    /// Folds every due fill into the average, or returns `None` where a number it
    /// needs cannot be represented.
    pub fn try_process_due_snapshots(&mut self, now: Timestamp, current_mid: Price) -> (result:
        Option<()>)
        ensures
            match after_snapshots(old(self)@, now, current_mid) {
                Some(state) => result is Some && final(self)@ == state,
                None => result is None,
            },
    {
        if self.cfg.snapshot_window_ms == 0 || !current_mid.0.is_positive() {
            return Some(());
        }
        let count: usize = self.pending.len();
        let ghost fills = self.pending@;
        let ghost start = AdverseState { pending: Seq::empty(), ..self@ };
        let ghost mut seen = start;
        proof {
            assert(fills.take(0) =~= Seq::empty());
            assert(fills.skip(0) + start.pending =~= fills);
        }
        for i in 0..count
            invariant
                count == fills.len(),
                fills == old(self)@.pending,
                start == (AdverseState { pending: Seq::empty(), ..old(self)@ }),
                old(self)@.cfg.snapshot_window_ms != 0,
                current_mid.0@ > 0,
                walked(start, fills.take(i as int), now, current_mid) == Some(seen),
                self@ == (AdverseState { pending: fills.skip(i as int) + seen.pending, ..seen }),
        {
            let front = self.pending[0];
            proof {
                assert(front == fills[i as int]);
                assert(fills.take(i + 1).drop_last() =~= fills.take(i as int));
                assert(fills.take(i + 1).last() == fills[i as int]);
                lemma_walk_stops(start, fills, now, current_mid, i + 1);
            }
            let _ = self.pending.pop_front();
            assert(self.pending@ =~= fills.skip(i + 1) + seen.pending);
            if now.0 < front.snapshot_due_ts.0 {
                self.pending.push_back(front);
                proof {
                    seen = AdverseState { pending: seen.pending.push(front), ..seen };
                    assert(self.pending@ =~= fills.skip(i + 1) + seen.pending);
                }
            } else {
                proof {
                    lemma_fold_ignores_queue(seen, self.pending@, front, current_mid);
                }
                self.fold_fill(front, current_mid)?;
                proof {
                    seen = folded(seen, front, current_mid)->0;
                }
            }
        }
        assert(fills.take(count as int) =~= fills);
        assert(fills.skip(count as int) + seen.pending =~= seen.pending);
        Some(())
    }

    /// Folds every due fill into the average.
    pub fn process_due_snapshots(&mut self, now: Timestamp, current_mid: Price)
        requires
            after_snapshots(old(self)@, now, current_mid) is Some,
        ensures
            after_snapshots(old(self)@, now, current_mid) == Some(final(self)@),
    {
        self.try_process_due_snapshots(now, current_mid).unwrap();
    }

    /// The surcharge in bps, or `None` where it cannot be represented.
    pub fn try_current_widen_bps(&self) -> (result: Option<Decimal>)
        ensures
            result == widening(self@),
    {
        if self.cfg.max_widen_bps == 0 || !self.seeded {
            return Some(Decimal::zero());
        }
        let excess = self.ema_adverse_bps.checked_sub(self.cfg.threshold_bps)?;
        if !excess.is_positive() {
            return Some(Decimal::zero());
        }
        Some(excess.min(Decimal::whole(self.cfg.max_widen_bps as i64)))
    }

    /// The surcharge in bps.
    pub fn current_widen_bps(&self) -> (result: Decimal)
        requires
            widening(self@) is Some,
        ensures
            widening(self@) == Some(result),
    {
        self.try_current_widen_bps().unwrap()
    }

    /// The moving average in bps.
    pub fn current_ema_bps(&self) -> (result: Decimal)
        ensures
            result == self@.ema_adverse_bps,
    {
        self.ema_adverse_bps
    }

    /// How many fills await their look at the mid.
    pub fn pending_len(&self) -> (result: usize)
        ensures
            result == self@.pending.len(),
    {
        self.pending.len()
    }

    /// Time of the last fill recorded, if any was.
    pub fn last_fill_ts(&self) -> (result: Option<Timestamp>)
        ensures
            result == self@.last_fill,
    {
        self.last_fill
    }
}

proof fn lemma_walk_stops(
    state: AdverseState,
    fills: Seq<PendingFill>,
    now: Timestamp,
    mid: Price,
    n: int,
)
    requires
        0 <= n <= fills.len(),
    ensures
        walked(state, fills.take(n), now, mid) is None ==> walked(state, fills, now, mid) is None,
    decreases fills.len() - n,
{
    if n == fills.len() {
        assert(fills.take(n) =~= fills);
    } else {
        assert(fills.take(n + 1).drop_last() =~= fills.take(n));
        lemma_walk_stops(state, fills, now, mid, n + 1);
    }
}

proof fn lemma_fold_ignores_queue(
    state: AdverseState,
    queue: Seq<PendingFill>,
    fill: PendingFill,
    mid: Price,
)
    ensures
        folded(AdverseState { pending: queue, ..state }, fill, mid) == (match folded(
            state,
            fill,
            mid,
        ) {
            Some(next) => Some(AdverseState { pending: queue, ..next }),
            None => None,
        }),
        folded(state, fill, mid) matches Some(next) ==> next.pending == state.pending,
{
}

proof fn lemma_walk_keeps_what_is_not_due(
    state: AdverseState,
    fills: Seq<PendingFill>,
    now: Timestamp,
    mid: Price,
)
    ensures
        walked(state, fills, now, mid) matches Some(next) ==> next.pending == state.pending
            + fills.filter(|fill: PendingFill| !is_due(fill, now)),
    decreases fills.len(),
{
    reveal(Seq::filter);
    let kept = |fill: PendingFill| !is_due(fill, now);
    if fills.len() == 0 {
        assert(state.pending + fills.filter(kept) =~= state.pending);
    } else {
        lemma_walk_keeps_what_is_not_due(state, fills.drop_last(), now, mid);
        if let Some(next) = walked(state, fills.drop_last(), now, mid) {
            assert(state.pending + fills.drop_last().filter(kept).push(fills.last()) =~= (
            state.pending + fills.drop_last().filter(kept)).push(fills.last()));
        }
    }
}

/// After an event no fill whose look at the mid is due is left waiting, wherever it stood
/// in the queue, and those that are not due wait on in their order.
pub proof fn law_due_fills_are_folded(state: AdverseState, now: Timestamp, mid: Price)
    requires
        state.cfg.snapshot_window_ms != 0,
        mid.0@ > 0,
    ensures
        after_snapshots(state, now, mid) matches Some(next) ==> next.pending
            == state.pending.filter(|fill: PendingFill| !is_due(fill, now)),
{
    let start = AdverseState { pending: Seq::empty(), ..state };
    lemma_walk_keeps_what_is_not_due(start, state.pending, now, mid);
    let waiting = state.pending.filter(|fill: PendingFill| !is_due(fill, now));
    assert(start.pending + waiting =~= waiting);
}

/// The surcharge lies between zero and the cap, and is zero while the tracker is
/// off or the average is at or below the threshold.
pub proof fn law_widening_is_bounded(state: AdverseState)
    requires
        widening(state) is Some,
    ensures
        0 <= (widening(state)->0)@,
        (widening(state)->0)@ <= whole(state.cfg.max_widen_bps as int)@,
        state.cfg.max_widen_bps == 0 || !state.seeded ==> (widening(state)->0)@ == 0,
{
    crate::decimal::lemma_whole(0);
    crate::decimal::lemma_whole(state.cfg.max_widen_bps as int);
    crate::decimal::lemma_pow10_positive(28);
    let cap = state.cfg.max_widen_bps as int;
    let unit = crate::decimal::pow10(28);
    assert(cap * unit >= 0) by (nonlinear_arith)
        requires
            cap >= 0,
            unit >= 1,
    ;
}

/// The first sample starts the average; every later one pulls it by two parts in `n + 1`,
/// where `n` is the half-life in fills.
pub proof fn law_average_moves_by_its_weight(
    state: AdverseState,
    sample: Decimal,
    fresh_part: Decimal,
    kept_weight: Decimal,
    kept_part: Decimal,
    total: Decimal,
    average: Decimal,
)
    requires
        state.cfg.ema_half_life_fills > 0,
        state.cfg.ema_half_life_fills < u32::MAX,
        product(whole(2), sample) == Some(fresh_part),
        fresh_part@ == 2 * sample@,
        difference(whole(state.cfg.ema_half_life_fills + 1), whole(2)) == Some(kept_weight),
        product(kept_weight, state.ema_adverse_bps) == Some(kept_part),
        kept_part@ == (state.cfg.ema_half_life_fills - 1) * state.ema_adverse_bps@,
        sum(fresh_part, kept_part) == Some(total),
        total@ == fresh_part@ + kept_part@,
        quotient(total, whole(state.cfg.ema_half_life_fills + 1)) == Some(average),
        average@ * (state.cfg.ema_half_life_fills + 1) == total@,
    ensures
        average_with(state, sample) is Some,
        !state.seeded ==> average_with(state, sample) == Some(sample),
        state.seeded ==> ({
            let next = average_with(state, sample)->0@;
            let n = state.cfg.ema_half_life_fills as int;
            &&& (n + 1) * (next - state.ema_adverse_bps@) == 2 * (sample@ - state.ema_adverse_bps@)
        }),
{
    let n = state.cfg.ema_half_life_fills as int;
    let (a, e, x) = (average@, state.ema_adverse_bps@, sample@);
    assert((n + 1) * (a - e) == 2 * (x - e)) by (nonlinear_arith)
        requires
            a * (n + 1) == 2 * x + (n - 1) * e,
    ;
}

/// A fill is looked at once its window has passed, not before, and what is waiting keeps the
/// side and the price it was filled at.
pub proof fn law_fill_waits_its_window(
    state: AdverseState,
    fill_ts: Timestamp,
    side: Side,
    fill_price: Price,
    now: Timestamp,
)
    requires
        state.cfg.snapshot_window_ms > 0,
        fill_ts.0 + state.cfg.snapshot_window_ms * 1_000_000 <= u64::MAX,
    ensures
        ({
            let waiting = with_fill(state, fill_ts, side, fill_price).pending;
            &&& waiting.len() == state.pending.len() + 1
            &&& waiting.last().side == side && waiting.last().fill_price == fill_price
            &&& is_due(waiting.last(), now) <==> now.0 - fill_ts.0
                >= state.cfg.snapshot_window_ms * 1_000_000
        }),
{
}

/// The surcharge is the excess of the average over the threshold, none below the threshold
/// and at most the cap.
pub proof fn law_surcharge_is_the_excess(state: AdverseState, excess: Decimal)
    requires
        state.seeded,
        state.cfg.max_widen_bps > 0,
        difference(state.ema_adverse_bps, state.cfg.threshold_bps) == Some(excess),
        excess@ == state.ema_adverse_bps@ - state.cfg.threshold_bps@,
    ensures
        widening(state) is Some,
        state.ema_adverse_bps@ <= state.cfg.threshold_bps@ ==> widening(state) == Some(whole(0)),
        state.ema_adverse_bps@ > state.cfg.threshold_bps@ ==> widening(state)->0@ == (if excess@
            <= state.cfg.max_widen_bps * pow10(28) {
            state.ema_adverse_bps@ - state.cfg.threshold_bps@
        } else {
            state.cfg.max_widen_bps * pow10(28)
        }),
{
    lemma_whole(state.cfg.max_widen_bps as int);
}

/// A fill is toxic by how far the mid has moved against it since, as basis points of its price:
/// below the price of a bid, above that of an ask.
pub proof fn law_toxicity_is_the_adverse_move(
    state: AdverseState,
    fill: PendingFill,
    mid: Price,
    signed: Decimal,
    sample: Decimal,
)
    requires
        !state.seeded,
        fill.side is Bid ==> difference(fill.fill_price.0, mid.0) == Some(signed) && signed@
            == fill.fill_price.0@ - mid.0@,
        fill.side is Ask ==> difference(mid.0, fill.fill_price.0) == Some(signed) && signed@
            == mid.0@ - fill.fill_price.0@,
        reads_exactly(signed, fill.fill_price.0, sample),
    ensures
        folded(state, fill, mid) matches Some(next) && next.seeded && {
            let price = fill.fill_price.0@;
            let ema = next.ema_adverse_bps@;
            &&& fill.side is Bid ==> ema * price == (price - mid.0@) * 10_000 * pow10(28)
            &&& fill.side is Ask ==> ema * price == (mid.0@ - price) * 10_000 * pow10(28)
        },
{
}

} // verus!
