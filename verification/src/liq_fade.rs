//! Fades the overshoot of liquidation cascades.
//!
//! Forced orders on one side push the price past its fair value for a moment. The
//! strategy arms when one side dominates the recent forced orders, waits until the
//! price has overshot the mid it armed at, posts one passive order against the move,
//! and leaves most of the way back:
//!
//! ```text
//! Idle          -- one side dominates --------------> Armed
//! Armed         -- price overshoots -----------------> Capitulation (fade quote)
//! Armed         -- window over ----------------------> Idle
//! Capitulation  -- fill -----------------------------> Holding (take-profit quote)
//! Capitulation  -- entry timeout --------------------> Idle (cancel)
//! Holding       -- take-profit, stop or time stop ---> Idle (flatten if needed)
//! ```
//!
//! There is one trade per cascade: while a trade is on, nothing arms.

use crate::decimal::{
    absolute, difference, exact_product, lemma_pow10_positive, lemma_whole, minus, negated, plus,
    pow10, product, quotient, sum, times, whole, Decimal,
};
use crate::market::{
    maker_order, opposite, Fill, LiqEvent, MarketEvent, Price, QuoteIntent, Side, Size,
    Symbol,
};
use crate::quoting::{
    bps_fraction, capped_product, compute_mid_strict, elapsed, lemma_lies_away,
    make_post_only_intent, mid_strict, moves_exactly, price_away, saturating_product,
    try_bps_fraction, try_price_away,
};
use crate::risk::{
    build_close, flatten, reducing_side, risk_decision, try_evaluate, RiskConfig,
    RiskDecision,
};
use crate::sizing::{floored_lot_size, try_floored_lot_size};
use crate::strategy::{follows, keeps_to, quotes_on, Action, Strategy, StrategyContext};
use std::collections::VecDeque;
use vstd::prelude::*;

verus! {

/// Configuration for [`LiqFade`].
#[derive(Clone, Copy, Debug)]
pub struct LiqFadeConfig {
    /// Notional per entry.
    pub notional_per_entry: Decimal,
    /// Venue tick size.
    pub tick_size: Decimal,
    /// Venue lot step size.
    pub step_size: Decimal,
    /// Venue minimum order notional.
    pub min_notional: Decimal,
    /// Hard position cap in quote currency. `0` disables it.
    pub max_position_usdt: Decimal,
    /// Forced-order notional on one side at which the strategy arms.
    pub arm_threshold_usdt: Decimal,
    /// Most that the lighter side may have, as a fraction of the heavier.
    pub arm_dominance: Decimal,
    /// Move past the armed mid at which the fade quote is posted, in bps.
    pub capitulation_overshoot_bps: u32,
    /// Distance of the fade quote from the touch, in bps.
    pub fade_offset_bps: u32,
    /// Distance of the take-profit from the armed mid, in bps.
    pub revert_target_bps: u32,
    /// How long the strategy stays armed, and how long a fade quote rests, in seconds.
    pub entry_timeout_secs: u32,
    /// How long a position is held, in seconds.
    pub position_timeout_secs: u32,
    /// Stop-loss in bps of position notional. `0` disables it.
    pub stop_loss_bps: u32,
}

/// Phases of the state machine.
#[derive(Clone, Copy, Debug, PartialEq, Eq, Structural)]
pub enum LiqFadeState {
    /// Waiting for a cascade.
    Idle,
    /// Waiting for the overshoot.
    Armed,
    /// The fade quote rests.
    Capitulation,
    /// The fade quote was filled and the take-profit rests.
    Holding,
}

/// What was known when the strategy armed.
#[derive(Clone, Copy, Debug)]
pub struct ArmedSnapshot {
    /// Mid at that moment.
    pub pre_liq_mid: Price,
    /// Side of the forced orders.
    pub heavy_side: Side,
    /// When it was, in ns.
    pub armed_ts: u64,
}

/// The trade in progress.
#[derive(Clone, Copy, Debug)]
pub struct TradeState {
    /// Mid when the strategy armed.
    pub pre_liq_mid: Price,
    /// Side of the fade quote.
    pub entry_side: Side,
    /// When the quote was posted or filled, in ns.
    pub phase_started_ts: u64,
}

/// Forced orders within a time window.
#[derive(Debug)]
pub struct SideSumWindow {
    /// Length of the window, in ns.
    pub window_ns: u64,
    /// Time, side and notional, oldest first.
    pub entries: VecDeque<(u64, Side, Decimal)>,
}

/// Liquidation-cascade fade strategy.
pub struct LiqFade {
    /// Settings.
    pub config: LiqFadeConfig,
    /// Phase.
    pub state: LiqFadeState,
    /// What was known when the strategy armed.
    pub armed: Option<ArmedSnapshot>,
    /// The trade in progress.
    pub trade: Option<TradeState>,
    /// Best bid last seen.
    pub last_bid: Option<Price>,
    /// Best ask last seen.
    pub last_ask: Option<Price>,
    /// Mid last seen.
    pub last_mid: Option<Price>,
    /// Time of the last event, in ns.
    pub last_event_ts: u64,
    /// Time of the newest forced order that was counted, in ns.
    pub last_liq_ts_seen: u64,
    /// How many forced orders of that time were counted.
    pub liqs_at_last_ts: usize,
    /// The forced orders that count.
    pub side_sum: SideSumWindow,
}

/// Mathematical content of a [`LiqFade`].
#[verifier::ext_equal]
pub struct FadeState {
    /// Settings.
    pub config: LiqFadeConfig,
    /// Phase.
    pub state: LiqFadeState,
    /// What was known when the strategy armed.
    pub armed: Option<ArmedSnapshot>,
    /// The trade in progress.
    pub trade: Option<TradeState>,
    /// Best bid last seen.
    pub last_bid: Option<Price>,
    /// Best ask last seen.
    pub last_ask: Option<Price>,
    /// Mid last seen.
    pub last_mid: Option<Price>,
    /// Time of the last event, in ns.
    pub last_event_ts: u64,
    /// Time of the newest forced order that was counted, in ns.
    pub last_liq_ts_seen: u64,
    /// How many forced orders of that time were counted.
    pub liqs_at_last_ts: usize,
    /// Length of the window of forced orders, in ns.
    pub window_ns: u64,
    /// The forced orders that count, oldest first.
    pub liqs: Seq<(u64, Side, Decimal)>,
}

impl View for LiqFade {
    type V = FadeState;

    open spec fn view(&self) -> FadeState {
        FadeState {
            config: self.config,
            state: self.state,
            armed: self.armed,
            trade: self.trade,
            last_bid: self.last_bid,
            last_ask: self.last_ask,
            last_mid: self.last_mid,
            last_event_ts: self.last_event_ts,
            last_liq_ts_seen: self.last_liq_ts_seen,
            liqs_at_last_ts: self.liqs_at_last_ts,
            window_ns: self.side_sum.window_ns,
            liqs: self.side_sum.entries@,
        }
    }
}

/// The entries from the first one that is not older than `cutoff`.
pub open spec fn recent(entries: Seq<(u64, Side, Decimal)>, cutoff: int) -> Seq<
    (u64, Side, Decimal),
>
    decreases entries.len(),
{
    if entries.len() > 0 && entries[0].0 < cutoff {
        recent(entries.drop_first(), cutoff)
    } else {
        entries
    }
}

/// The notional of the entries on one side.
pub open spec fn side_total(entries: Seq<(u64, Side, Decimal)>, side: Side) -> Option<Decimal>
    decreases entries.len(),
{
    if entries.len() == 0 {
        Some(whole(0))
    } else {
        match side_total(entries.drop_last(), side) {
            None => None,
            Some(total) => if entries.last().1 == side {
                sum(total, entries.last().2)
            } else {
                Some(total)
            },
        }
    }
}

impl SideSumWindow {
    /// An empty window of this many seconds.
    pub fn new(window_secs: u32) -> (result: SideSumWindow)
        ensures
            result.window_ns == window_secs * 1_000_000_000,
            result.entries@.len() == 0,
    {
        SideSumWindow {
            window_ns: window_secs as u64 * 1_000_000_000,
            entries: VecDeque::new(),
        }
    }

    /// Drops what has left the window by `now_ns`.
    pub fn prune(&mut self, now_ns: u64)
        ensures
            final(self).window_ns == old(self).window_ns,
            final(self).entries@ == recent(
                old(self).entries@,
                elapsed(now_ns, old(self).window_ns),
            ),
    {
        let cutoff: u64 = now_ns.saturating_sub(self.window_ns);
        while self.entries.len() > 0
            invariant
                self.window_ns == old(self).window_ns,
                cutoff == elapsed(now_ns, old(self).window_ns),
                recent(self.entries@, cutoff as int) == recent(old(self).entries@, cutoff as int),
            decreases self.entries@.len(),
        {
            if self.entries[0].0 >= cutoff {
                return;
            }
            let ghost before = self.entries@;
            let _ = self.entries.pop_front();
            assert(self.entries@ =~= before.drop_first());
        }
    }

    /// Counts one forced order.
    pub fn observe(&mut self, ts_ns: u64, side: Side, notional: Decimal)
        ensures
            final(self).window_ns == old(self).window_ns,
            final(self).entries@ == recent(
                old(self).entries@.push((ts_ns, side, notional)),
                elapsed(ts_ns, old(self).window_ns),
            ),
    {
        self.entries.push_back((ts_ns, side, notional));
        self.prune(ts_ns);
    }

    /// The notional on one side, or `None` where it cannot be represented.
    pub fn sum_for(&self, side: Side) -> (result: Option<Decimal>)
        ensures
            result == side_total(self.entries@, side),
    {
        let ghost all = self.entries@;
        let mut total = Decimal::zero();
        let mut i: usize = 0;
        while i < self.entries.len()
            invariant
                all == self.entries@,
                i <= all.len(),
                side_total(all.take(i as int), side) == Some(total),
            decreases all.len() - i,
        {
            proof {
                let longer = all.take(i + 1);
                assert(longer.drop_last() =~= all.take(i as int));
                assert(longer.last() == all[i as int]);
                if side_total(longer, side) is None {
                    lemma_total_fails(all, side, i + 1);
                }
            }
            let (_, entry_side, notional) = self.entries[i];
            if entry_side == side {
                total = total.checked_add(notional)?;
            }
            i = i + 1;
        }
        assert(all.take(i as int) =~= all);
        Some(total)
    }
}

proof fn lemma_total_fails(entries: Seq<(u64, Side, Decimal)>, side: Side, n: int)
    requires
        0 <= n <= entries.len(),
        side_total(entries.take(n), side) is None,
    ensures
        side_total(entries, side) is None,
    decreases entries.len() - n,
{
    if n < entries.len() {
        assert(entries.take(n + 1).drop_last() =~= entries.take(n));
        lemma_total_fails(entries, side, n + 1);
    } else {
        assert(entries.take(n) =~= entries);
    }
}

/// How many of the first `n` forced orders printed at this time.
pub open spec fn printed_at(liqs: Seq<LiqEvent>, ts: u64, n: nat) -> nat
    decreases n,
{
    if n == 0 {
        0
    } else if liqs[n - 1].ts.0 == ts {
        printed_at(liqs, ts, (n - 1) as nat) + 1
    } else {
        printed_at(liqs, ts, (n - 1) as nat)
    }
}

/// Whether a forced order of the context was counted before: it is older than the newest
/// counted one, or among as many of the same time as were counted.
pub open spec fn known(state: FadeState, liqs: Seq<LiqEvent>, i: int) -> bool {
    ||| liqs[i].ts.0 < state.last_liq_ts_seen
    ||| liqs[i].ts.0 == state.last_liq_ts_seen && printed_at(liqs, liqs[i].ts.0, i as nat)
        < state.liqs_at_last_ts
}

/// The state once the first `n` forced orders of the context have been counted, each
/// once. The context holds them oldest first.
pub open spec fn counted(state: FadeState, liqs: Seq<LiqEvent>, n: nat) -> FadeState
    decreases n,
{
    if n == 0 {
        state
    } else {
        let before = counted(state, liqs, (n - 1) as nat);
        let liq = liqs[n - 1];
        if known(before, liqs, n - 1) {
            before
        } else {
            FadeState {
                liqs: recent(
                    before.liqs.push((liq.ts.0, liq.side, liq.notional.0)),
                    elapsed(liq.ts.0, before.window_ns),
                ),
                last_liq_ts_seen: liq.ts.0,
                liqs_at_last_ts: printed_at(liqs, liq.ts.0, n) as usize,
                ..before
            }
        }
    }
}

/// The time an event carries.
pub open spec fn event_time(event: MarketEvent) -> u64 {
    match event {
        MarketEvent::BookUpdate { snapshot } => snapshot.ts.0,
        MarketEvent::Trade { ts, .. } => ts.0,
        MarketEvent::Fill(fill) => fill.ts.0,
        MarketEvent::Heartbeat { ts } => ts.0,
    }
}

/// The state with the window brought up to date.
pub open spec fn caught_up(state: FadeState, ctx: StrategyContext, event: MarketEvent) -> FadeState {
    let now = event_time(event);
    counted(
        FadeState {
            last_event_ts: now,
            liqs: recent(state.liqs, elapsed(now, state.window_ns)),
            ..state
        },
        ctx.recent_liqs@,
        ctx.recent_liqs@.len(),
    )
}

/// Whether one side reaches the threshold and the other stays within the dominance.
pub open spec fn dominates(config: LiqFadeConfig, heavy: Decimal, light: Decimal) -> Option<bool> {
    if heavy@ < config.arm_threshold_usdt@ {
        Some(false)
    } else {
        match product(heavy, config.arm_dominance) {
            None => None,
            Some(most) => Some(light@ <= most@),
        }
    }
}

/// The side that arms the strategy; the inner `None` is neither.
pub open spec fn arming_side(state: FadeState) -> Option<Option<Side>> {
    match (side_total(state.liqs, Side::Bid), side_total(state.liqs, Side::Ask)) {
        (Some(bids), Some(asks)) => match dominates(state.config, bids, asks) {
            None => None,
            Some(true) => Some(Some(Side::Bid)),
            Some(false) => match dominates(state.config, asks, bids) {
                None => None,
                Some(true) => Some(Some(Side::Ask)),
                Some(false) => Some(None),
            },
        },
        _ => None,
    }
}

/// Whether the mid has overshot the armed mid, in the direction of the forced orders.
pub open spec fn overshot(config: LiqFadeConfig, snap: ArmedSnapshot, mid: Price) -> Option<bool> {
    let bp = bps_fraction(config.capitulation_overshoot_bps as int);
    match price_away(snap.pre_liq_mid.0, opposite(snap.heavy_side), bp) {
        None => None,
        Some(limit) => Some(
            match snap.heavy_side {
                Side::Ask => mid.0@ <= limit@,
                Side::Bid => mid.0@ >= limit@,
            },
        ),
    }
}

/// Whether a mid lies at least `bps` basis points below the armed one where asks were forced,
/// above it where bids were.
pub open spec fn is_capitulation(mid: int, armed: int, heavy_side: Side, bps: int) -> bool {
    match heavy_side {
        Side::Ask => mid * 10_000 <= armed * (10_000 - bps),
        Side::Bid => mid * 10_000 >= armed * (10_000 + bps),
    }
}

/// The price of the fade quote: beyond the touch on its own side.
pub open spec fn fade_price(
    config: LiqFadeConfig,
    heavy_side: Side,
    best_bid: Price,
    best_ask: Price,
) -> Option<Decimal> {
    let touch = match heavy_side {
        Side::Ask => best_bid,
        Side::Bid => best_ask,
    };
    price_away(touch.0, opposite(heavy_side), bps_fraction(config.fade_offset_bps as int))
}

/// The price of the take-profit: short of the armed mid.
pub open spec fn tp_price(config: LiqFadeConfig, trade: TradeState) -> Option<Decimal> {
    price_away(
        trade.pre_liq_mid.0,
        trade.entry_side,
        bps_fraction(config.revert_target_bps as int),
    )
}

/// A passive quote of the configured notional.
pub open spec fn entry_quote(
    config: LiqFadeConfig,
    symbol: Symbol,
    side: Side,
    price: Decimal,
) -> Option<Action> {
    match floored_lot_size(
        config.notional_per_entry,
        price,
        config.step_size,
        config.min_notional,
    ) {
        None => None,
        Some(size) => Some(Action::Quote(maker_order(symbol, side, price, size))),
    }
}

/// The state back at the start.
pub open spec fn idle(state: FadeState) -> FadeState {
    FadeState { state: LiqFadeState::Idle, armed: None, trade: None, ..state }
}

/// Whether an entry on this side would deepen a position that is at its cap.
pub open spec fn at_position_cap(
    config: LiqFadeConfig,
    ctx: StrategyContext,
    mid: Price,
    side: Side,
) -> Option<bool> {
    if config.max_position_usdt@ <= 0 {
        Some(false)
    } else {
        match product(ctx.position.size.0, mid.0) {
            None => None,
            Some(value) => Some(
                match side {
                    Side::Bid => value@ >= config.max_position_usdt@,
                    Side::Ask => value@ <= negated(config.max_position_usdt)@,
                },
            ),
        }
    }
}

/// The actions that end a trade: at the time stop a close of whatever is held, and
/// otherwise the close of the stop-loss. The inner `None` is to keep holding.
pub open spec fn exit_actions(
    state: FadeState,
    ctx: StrategyContext,
    mid: Price,
    best_bid: Price,
    best_ask: Price,
    now_ns: u64,
) -> Option<Option<Seq<Action>>> {
    let size = ctx.position.size.0;
    match state.trade {
        None => Some(None),
        Some(trade) => if elapsed(now_ns, trade.phase_started_ts) >= capped_product(
            state.config.position_timeout_secs as int,
            1_000_000_000,
        ) {
            Some(
                Some(
                    if size@ == 0 {
                        Seq::empty()
                    } else {
                        flatten(
                            *ctx.symbol,
                            reducing_side(size),
                            absolute(size),
                            best_bid,
                            best_ask,
                        )
                    },
                ),
            )
        } else if state.config.stop_loss_bps == 0 {
            Some(None)
        } else {
            let policy = RiskConfig {
                take_profit_bps: 0,
                stop_loss_bps: state.config.stop_loss_bps,
                take_profit_usdt_legacy: whole(0),
            };
            match risk_decision(*ctx.position, mid, policy) {
                None => None,
                Some(RiskDecision::Hold) => Some(None),
                Some(RiskDecision::Close { side, qty, .. }) => Some(
                    Some(flatten(*ctx.symbol, side, qty.0, best_bid, best_ask)),
                ),
            }
        },
    }
}

/// What a book update does while idle.
pub open spec fn idle_tick(state: FadeState, mid: Price, now_ns: u64) -> Option<
    (FadeState, Seq<Action>),
> {
    match arming_side(state) {
        None => None,
        Some(None) => Some((state, Seq::empty())),
        Some(Some(heavy_side)) => Some(
            (
                FadeState {
                    state: LiqFadeState::Armed,
                    armed: Some(ArmedSnapshot { pre_liq_mid: mid, heavy_side, armed_ts: now_ns }),
                    ..state
                },
                Seq::empty(),
            ),
        ),
    }
}

/// What a book update does while armed.
pub open spec fn armed_tick(
    state: FadeState,
    ctx: StrategyContext,
    mid: Price,
    best_bid: Price,
    best_ask: Price,
    now_ns: u64,
) -> Option<(FadeState, Seq<Action>)> {
    match state.armed {
        None => Some((idle(state), Seq::empty())),
        Some(snap) => if elapsed(now_ns, snap.armed_ts) >= capped_product(
            state.config.entry_timeout_secs as int,
            1_000_000_000,
        ) {
            Some((idle(state), Seq::empty()))
        } else {
            let side = opposite(snap.heavy_side);
            match overshot(state.config, snap, mid) {
                None => None,
                Some(false) => Some((state, Seq::empty())),
                Some(true) => match (
                    fade_price(state.config, snap.heavy_side, best_bid, best_ask),
                    at_position_cap(state.config, ctx, mid, side),
                ) {
                    (Some(_), Some(true)) => Some((idle(state), Seq::empty())),
                    (Some(price), Some(false)) => match entry_quote(
                        state.config,
                        *ctx.symbol,
                        side,
                        price,
                    ) {
                        None => None,
                        Some(quote) => Some(
                            (
                                FadeState {
                                    state: LiqFadeState::Capitulation,
                                    trade: Some(
                                        TradeState {
                                            pre_liq_mid: snap.pre_liq_mid,
                                            entry_side: side,
                                            phase_started_ts: now_ns,
                                        },
                                    ),
                                    ..state
                                },
                                seq![quote],
                            ),
                        ),
                    },
                    _ => None,
                },
            }
        },
    }
}

/// What a book update does while the fade quote rests.
pub open spec fn capitulation_tick(state: FadeState, now_ns: u64) -> (FadeState, Seq<Action>) {
    match state.trade {
        None => (idle(state), Seq::empty()),
        Some(trade) => if elapsed(now_ns, trade.phase_started_ts) >= capped_product(
            state.config.entry_timeout_secs as int,
            1_000_000_000,
        ) {
            (idle(state), seq![Action::CancelAll])
        } else {
            (state, Seq::empty())
        },
    }
}

/// What a book update does in each phase.
pub open spec fn machine_tick(
    state: FadeState,
    ctx: StrategyContext,
    mid: Price,
    best_bid: Price,
    best_ask: Price,
    now_ns: u64,
) -> Option<(FadeState, Seq<Action>)> {
    match state.state {
        LiqFadeState::Idle => idle_tick(state, mid, now_ns),
        LiqFadeState::Armed => armed_tick(state, ctx, mid, best_bid, best_ask, now_ns),
        LiqFadeState::Capitulation => Some(capitulation_tick(state, now_ns)),
        LiqFadeState::Holding => match exit_actions(
            state,
            ctx,
            mid,
            best_bid,
            best_ask,
            now_ns,
        ) {
            None => None,
            Some(None) => Some((state, Seq::empty())),
            Some(Some(actions)) => Some((idle(state), actions)),
        },
    }
}

/// What a fill does in each phase.
pub open spec fn fill_tick(state: FadeState, ctx: StrategyContext, fill: Fill) -> Option<
    (FadeState, Seq<Action>),
> {
    match state.state {
        LiqFadeState::Capitulation => match state.trade {
            None => Some((state, Seq::empty())),
            Some(trade) => if fill.side != trade.entry_side {
                Some((state, Seq::empty()))
            } else {
                let held = TradeState { phase_started_ts: fill.ts.0, ..trade };
                match tp_price(state.config, held) {
                    None => None,
                    Some(price) => match entry_quote(
                        state.config,
                        *ctx.symbol,
                        opposite(trade.entry_side),
                        price,
                    ) {
                        None => None,
                        Some(quote) => Some(
                            (
                                FadeState {
                                    state: LiqFadeState::Holding,
                                    trade: Some(held),
                                    ..state
                                },
                                seq![quote],
                            ),
                        ),
                    },
                }
            },
        },
        LiqFadeState::Holding => Some(
            (
                if ctx.position.size.0@ == 0 {
                    idle(state)
                } else {
                    state
                },
                Seq::empty(),
            ),
        ),
        _ => Some((state, Seq::empty())),
    }
}

/// The state and actions that an event calls for.
pub open spec fn fade_step(state: FadeState, ctx: StrategyContext, event: MarketEvent) -> Option<
    (FadeState, Seq<Action>),
> {
    let seen = caught_up(state, ctx, event);
    match event {
        MarketEvent::BookUpdate { snapshot } => match mid_strict(snapshot) {
            None => None,
            Some(None) => Some((seen, Seq::empty())),
            Some(Some(mid)) => {
                let best_bid = snapshot.bids@[0].price;
                let best_ask = snapshot.asks@[0].price;
                machine_tick(
                    FadeState {
                        last_bid: Some(best_bid),
                        last_ask: Some(best_ask),
                        last_mid: Some(mid),
                        ..seen
                    },
                    ctx,
                    mid,
                    best_bid,
                    best_ask,
                    snapshot.ts.0,
                )
            },
        },
        MarketEvent::Fill(fill) => fill_tick(seen, ctx, fill),
        _ => Some((seen, Seq::empty())),
    }
}

impl LiqFade {
    /// The phase the strategy is in.
    pub fn state(&self) -> (result: LiqFadeState)
        ensures
            result == self.state,
    {
        self.state
    }

    fn reset_to_idle(&mut self)
        ensures
            final(self)@ == idle(old(self)@),
    {
        self.state = LiqFadeState::Idle;
        self.armed = None;
        self.trade = None;
    }

    fn count_printed_at(liqs: &[LiqEvent], ts: u64, n: usize) -> (result: usize)
        requires
            n <= liqs@.len(),
        ensures
            result == printed_at(liqs@, ts, n as nat),
            result <= n,
    {
        let mut count: usize = 0;
        for i in 0..n
            invariant
                n <= liqs@.len(),
                count == printed_at(liqs@, ts, i as nat),
                count <= i,
        {
            if liqs[i].ts.0 == ts {
                count = count + 1;
            }
        }
        count
    }

    fn ingest_liqs(&mut self, liqs: &[LiqEvent])
        ensures
            final(self)@ == counted(old(self)@, liqs@, liqs@.len()),
    {
        let mut n: usize = 0;
        while n < liqs.len()
            invariant
                n <= liqs@.len(),
                self@ == counted(old(self)@, liqs@, n as nat),
            decreases liqs@.len() - n,
        {
            let liq = &liqs[n];
            if liq.ts.0 >= self.last_liq_ts_seen {
                let before: usize = Self::count_printed_at(liqs, liq.ts.0, n);
                if liq.ts.0 > self.last_liq_ts_seen || before >= self.liqs_at_last_ts {
                    self.side_sum.observe(liq.ts.0, liq.side, liq.notional.0);
                    self.last_liq_ts_seen = liq.ts.0;
                    self.liqs_at_last_ts = before + 1;
                }
            }
            n = n + 1;
        }
    }

    fn does_dominate(&self, heavy: Decimal, light: Decimal) -> (result: Option<bool>)
        ensures
            result == dominates(self.config, heavy, light),
            result == Some(true) ==> heavy@ >= self.config.arm_threshold_usdt@,
            exact_product(heavy, self.config.arm_dominance) ==> result == Some(
                heavy@ >= self.config.arm_threshold_usdt@ && light@ * pow10(28) <= heavy@
                    * self.config.arm_dominance@,
            ),
    {
        if heavy.is_less(self.config.arm_threshold_usdt) {
            return Some(false);
        }
        let most = heavy.checked_mul(self.config.arm_dominance)?;
        proof {
            lemma_pow10_positive(28);
            let (v, m, p) = (light@, most@, pow10(28));
            assert((v <= m) == (v * p <= m * p)) by (nonlinear_arith)
                requires
                    p >= 1,
            ;
        }
        Some(light.is_at_most(most))
    }

    fn check_arm(&self) -> (result: Option<Option<Side>>)
        ensures
            result == arming_side(self@),
    {
        let bids = self.side_sum.sum_for(Side::Bid)?;
        let asks = self.side_sum.sum_for(Side::Ask)?;
        if self.does_dominate(bids, asks)? {
            return Some(Some(Side::Bid));
        }
        if self.does_dominate(asks, bids)? {
            return Some(Some(Side::Ask));
        }
        Some(None)
    }

    fn check_capitulation(&self, snap: ArmedSnapshot, mid: Price) -> (result: Option<bool>)
        ensures
            result == overshot(self.config, snap, mid),
            result == Some(true) && snap.pre_liq_mid.0@ >= 0 ==> {
                &&& snap.heavy_side is Ask ==> mid.0@ <= snap.pre_liq_mid.0@
                &&& snap.heavy_side is Bid ==> mid.0@ >= snap.pre_liq_mid.0@
            },
            moves_exactly(
                snap.pre_liq_mid.0,
                opposite(snap.heavy_side),
                bps_fraction(self.config.capitulation_overshoot_bps as int)->0,
            ) ==> result == Some(
                is_capitulation(
                    mid.0@,
                    snap.pre_liq_mid.0@,
                    snap.heavy_side,
                    self.config.capitulation_overshoot_bps as int,
                ),
            ),
    {
        let bp = try_bps_fraction(self.config.capitulation_overshoot_bps)?;
        let limit = try_price_away(snap.pre_liq_mid.0, snap.heavy_side.opposite(), bp)?;
        proof {
            let bps = self.config.capitulation_overshoot_bps as int;
            let side = opposite(snap.heavy_side);
            if moves_exactly(snap.pre_liq_mid.0, side, bp) {
                lemma_whole(1);
                lemma_lies_away(limit@, snap.pre_liq_mid.0@, side, bps);
            }
        }
        Some(
            match snap.heavy_side {
                Side::Ask => mid.0.is_at_most(limit),
                Side::Bid => mid.0.is_at_least(limit),
            },
        )
    }

    fn try_fade_price(&self, heavy_side: Side, best_bid: Price, best_ask: Price) -> (result: Option<
        Decimal,
    >)
        ensures
            result == fade_price(self.config, heavy_side, best_bid, best_ask),
            result is Some && heavy_side is Ask && best_bid.0@ >= 0 ==> result->0@ <= best_bid.0@,
            result is Some && heavy_side is Bid && best_ask.0@ >= 0 ==> result->0@ >= best_ask.0@,
    {
        let bp = try_bps_fraction(self.config.fade_offset_bps)?;
        let touch = match heavy_side {
            Side::Ask => best_bid,
            Side::Bid => best_ask,
        };
        try_price_away(touch.0, heavy_side.opposite(), bp)
    }

    fn try_tp_price(&self, trade: &TradeState) -> (result: Option<Decimal>)
        ensures
            result == tp_price(self.config, *trade),
            result is Some && trade.entry_side is Bid && trade.pre_liq_mid.0@ >= 0 ==> result->0@
                <= trade.pre_liq_mid.0@,
            result is Some && trade.entry_side is Ask && trade.pre_liq_mid.0@ >= 0 ==> result->0@
                >= trade.pre_liq_mid.0@,
    {
        let bp = try_bps_fraction(self.config.revert_target_bps)?;
        try_price_away(trade.pre_liq_mid.0, trade.entry_side, bp)
    }

    fn make_quote(&self, symbol: &Symbol, side: Side, price: Decimal) -> (result: Option<Action>)
        ensures
            result == entry_quote(self.config, *symbol, side, price),
    {
        let size = try_floored_lot_size(
            self.config.notional_per_entry,
            Price(price),
            self.config.step_size,
            self.config.min_notional,
        )?;
        Some(Action::Quote(make_post_only_intent(symbol, side, Price(price), size)))
    }

    fn is_at_position_cap(&self, ctx: &StrategyContext<'_>, mid: Price, side: Side) -> (result:
        Option<bool>)
        ensures
            result == at_position_cap(self.config, *ctx, mid, side),
            self.config.max_position_usdt@ <= 0 ==> result == Some(false),
            self.config.max_position_usdt@ > 0 && exact_product(ctx.position.size.0, mid.0)
                ==> result == Some(
                match side {
                    Side::Bid => ctx.position.size.0@ * mid.0@ >= self.config.max_position_usdt@
                        * pow10(28),
                    Side::Ask => -(ctx.position.size.0@ * mid.0@)
                        >= self.config.max_position_usdt@ * pow10(28),
                },
            ),
    {
        let cap = self.config.max_position_usdt;
        if !cap.is_positive() {
            return Some(false);
        }
        let value = ctx.position.size.0.checked_mul(mid.0)?;
        proof {
            lemma_pow10_positive(28);
            let (v, m, p) = (value@, cap@, pow10(28));
            assert((v >= m) == (v * p >= m * p)) by (nonlinear_arith)
                requires
                    p >= 1,
            ;
            assert((v <= -m) == (-(v * p) >= m * p)) by (nonlinear_arith)
                requires
                    p >= 1,
            ;
        }
        Some(
            match side {
                Side::Bid => value.is_at_least(cap),
                Side::Ask => value.is_at_most(cap.negate()),
            },
        )
    }

    fn check_exit(
        &self,
        ctx: &StrategyContext<'_>,
        mid: Price,
        best_bid: Price,
        best_ask: Price,
        now_ns: u64,
    ) -> (result: Option<Option<Vec<Action>>>)
        ensures
            match exit_actions(self@, *ctx, mid, best_bid, best_ask, now_ns) {
                None => result is None,
                Some(None) => result is Some && result->0 is None,
                Some(Some(actions)) => result is Some && result->0 is Some && result->0->0@
                    =~= actions,
            },
    {
        let trade = match self.trade {
            Some(trade) => trade,
            None => {
                return Some(None);
            },
        };
        let size = ctx.position.size.0;
        let timeout_ns: u64 = saturating_product(
            self.config.position_timeout_secs as u64,
            1_000_000_000,
        );
        if now_ns.saturating_sub(trade.phase_started_ts) >= timeout_ns {
            if size.is_zero() {
                return Some(Some(Vec::new()));
            }
            let side = if size.is_positive() {
                Side::Ask
            } else {
                Side::Bid
            };
            let close = build_close(ctx.symbol, side, Size(size.abs()), best_bid, best_ask);
            return Some(Some(vec![Action::CancelAll, close]));
        }
        if self.config.stop_loss_bps == 0 {
            return Some(None);
        }
        let policy = RiskConfig {
            take_profit_bps: 0,
            stop_loss_bps: self.config.stop_loss_bps,
            take_profit_usdt_legacy: Decimal::zero(),
        };
        match try_evaluate(ctx.position, mid, policy)? {
            RiskDecision::Hold => Some(None),
            RiskDecision::Close { side, qty, .. } => {
                let close = build_close(ctx.symbol, side, qty, best_bid, best_ask);
                Some(Some(vec![Action::CancelAll, close]))
            },
        }
    }

    fn tick_armed(
        &mut self,
        ctx: &StrategyContext<'_>,
        mid: Price,
        best_bid: Price,
        best_ask: Price,
        now_ns: u64,
    ) -> (result: Option<Vec<Action>>)
        ensures
            follows(
                armed_tick(old(self)@, *ctx, mid, best_bid, best_ask, now_ns),
                result,
                final(self)@,
            ),
    {
        let snap = match self.armed {
            Some(snap) => snap,
            None => {
                self.reset_to_idle();
                return Some(Vec::new());
            },
        };
        let timeout_ns: u64 = saturating_product(
            self.config.entry_timeout_secs as u64,
            1_000_000_000,
        );
        if now_ns.saturating_sub(snap.armed_ts) >= timeout_ns {
            self.reset_to_idle();
            return Some(Vec::new());
        }
        if !self.check_capitulation(snap, mid)? {
            return Some(Vec::new());
        }
        let entry_side = snap.heavy_side.opposite();
        let price = self.try_fade_price(snap.heavy_side, best_bid, best_ask)?;
        if self.is_at_position_cap(ctx, mid, entry_side)? {
            self.reset_to_idle();
            return Some(Vec::new());
        }
        self.state = LiqFadeState::Capitulation;
        self.trade = Some(
            TradeState { pre_liq_mid: snap.pre_liq_mid, entry_side, phase_started_ts: now_ns },
        );
        let quote = self.make_quote(ctx.symbol, entry_side, price)?;
        Some(vec![quote])
    }

    fn tick_capitulation(&mut self, now_ns: u64) -> (result: Vec<Action>)
        ensures
            final(self)@ == capitulation_tick(old(self)@, now_ns).0,
            result@ =~= capitulation_tick(old(self)@, now_ns).1,
    {
        let trade = match self.trade {
            Some(trade) => trade,
            None => {
                self.reset_to_idle();
                return Vec::new();
            },
        };
        let timeout_ns: u64 = saturating_product(
            self.config.entry_timeout_secs as u64,
            1_000_000_000,
        );
        if now_ns.saturating_sub(trade.phase_started_ts) >= timeout_ns {
            self.reset_to_idle();
            return vec![Action::CancelAll];
        }
        Vec::new()
    }

    fn tick_state_machine(
        &mut self,
        ctx: &StrategyContext<'_>,
        mid: Price,
        best_bid: Price,
        best_ask: Price,
        now_ns: u64,
    ) -> (result: Option<Vec<Action>>)
        ensures
            follows(
                machine_tick(old(self)@, *ctx, mid, best_bid, best_ask, now_ns),
                result,
                final(self)@,
            ),
    {
        match self.state {
            LiqFadeState::Idle => {
                if let Some(heavy_side) = self.check_arm()? {
                    self.state = LiqFadeState::Armed;
                    self.armed = Some(
                        ArmedSnapshot { pre_liq_mid: mid, heavy_side, armed_ts: now_ns },
                    );
                }
                Some(Vec::new())
            },
            LiqFadeState::Armed => self.tick_armed(ctx, mid, best_bid, best_ask, now_ns),
            LiqFadeState::Capitulation => Some(self.tick_capitulation(now_ns)),
            LiqFadeState::Holding => {
                match self.check_exit(ctx, mid, best_bid, best_ask, now_ns)? {
                    Some(actions) => {
                        self.reset_to_idle();
                        Some(actions)
                    },
                    None => Some(Vec::new()),
                }
            },
        }
    }

    fn on_fill(&mut self, ctx: &StrategyContext<'_>, fill: &Fill) -> (result: Option<Vec<Action>>)
        ensures
            follows(fill_tick(old(self)@, *ctx, *fill), result, final(self)@),
    {
        match self.state {
            LiqFadeState::Capitulation => {
                let trade = match self.trade {
                    Some(trade) => trade,
                    None => {
                        return Some(Vec::new());
                    },
                };
                if fill.side != trade.entry_side {
                    return Some(Vec::new());
                }
                let held = TradeState { phase_started_ts: fill.ts.0, ..trade };
                self.state = LiqFadeState::Holding;
                self.trade = Some(held);
                let price = self.try_tp_price(&held)?;
                let quote = self.make_quote(ctx.symbol, trade.entry_side.opposite(), price)?;
                Some(vec![quote])
            },
            LiqFadeState::Holding => {
                if ctx.position.size.0.is_zero() {
                    self.reset_to_idle();
                }
                Some(Vec::new())
            },
            _ => Some(Vec::new()),
        }
    }
}

/// The length of the window of forced orders: the longer of the two timeouts, and at
/// most ten minutes.
pub open spec fn window_secs(config: LiqFadeConfig) -> int {
    let longer = if config.entry_timeout_secs > config.position_timeout_secs {
        config.entry_timeout_secs
    } else {
        config.position_timeout_secs
    };
    if longer > 600 {
        600
    } else {
        longer as int
    }
}

impl Strategy for LiqFade {
    type Config = LiqFadeConfig;

    open spec fn initial(config: LiqFadeConfig) -> Option<FadeState> {
        Some(
            FadeState {
                config,
                state: LiqFadeState::Idle,
                armed: None,
                trade: None,
                last_bid: None,
                last_ask: None,
                last_mid: None,
                last_event_ts: 0,
                last_liq_ts_seen: 0,
                liqs_at_last_ts: 0,
                window_ns: (window_secs(config) * 1_000_000_000) as u64,
                liqs: Seq::empty(),
            },
        )
    }

    open spec fn event_step(state: FadeState, ctx: StrategyContext, event: MarketEvent) -> Option<
        (FadeState, Seq<Action>),
    > {
        fade_step(state, ctx, event)
    }

    open spec fn rejection_step(
        state: FadeState,
        ctx: StrategyContext,
        intent: QuoteIntent,
        reason: Seq<char>,
    ) -> Option<(FadeState, Seq<Action>)> {
        Some(
            if state.state is Capitulation {
                (idle(state), seq![Action::CancelAll])
            } else {
                (state, Seq::empty())
            },
        )
    }

    fn try_new(config: LiqFadeConfig) -> (result: Option<LiqFade>) {
        let longer: u32 = if config.entry_timeout_secs > config.position_timeout_secs {
            config.entry_timeout_secs
        } else {
            config.position_timeout_secs
        };
        let window: u32 = if longer > 600 {
            600
        } else {
            longer
        };
        let strategy = LiqFade {
            config,
            state: LiqFadeState::Idle,
            armed: None,
            trade: None,
            last_bid: None,
            last_ask: None,
            last_mid: None,
            last_event_ts: 0,
            last_liq_ts_seen: 0,
            liqs_at_last_ts: 0,
            side_sum: SideSumWindow::new(window),
        };
        assert(strategy@.liqs =~= Seq::empty());
        Some(strategy)
    }

    fn name(&self) -> (result: &str)
        ensures
            result@ == "liq-fade"@,
    {
        "liq-fade"
    }

    fn try_on_event(&mut self, ctx: &StrategyContext<'_>, event: &MarketEvent) -> (result: Option<
        Vec<Action>,
    >) {
        let event_ts: u64 = match event {
            MarketEvent::BookUpdate { snapshot } => snapshot.ts.0,
            MarketEvent::Trade { ts, .. } => ts.0,
            MarketEvent::Fill(fill) => fill.ts.0,
            MarketEvent::Heartbeat { ts } => ts.0,
        };
        self.last_event_ts = event_ts;
        self.side_sum.prune(event_ts);
        self.ingest_liqs(ctx.recent_liqs);
        assert(self@ == caught_up(old(self)@, *ctx, *event));
        match event {
            MarketEvent::BookUpdate { snapshot } => match compute_mid_strict(snapshot)? {
                None => Some(Vec::new()),
                Some(mid) => {
                    let best_bid = snapshot.bids[0].price;
                    let best_ask = snapshot.asks[0].price;
                    self.last_bid = Some(best_bid);
                    self.last_ask = Some(best_ask);
                    self.last_mid = Some(mid);
                    self.tick_state_machine(ctx, mid, best_bid, best_ask, event_ts)
                },
            },
            MarketEvent::Fill(fill) => self.on_fill(ctx, fill),
            _ => Some(Vec::new()),
        }
    }

    fn try_on_quote_rejected(
        &mut self,
        ctx: &StrategyContext<'_>,
        intent: &QuoteIntent,
        reason: &str,
    ) -> (result: Option<Vec<Action>>) {
        if self.state == LiqFadeState::Capitulation {
            self.reset_to_idle();
            return Some(vec![Action::CancelAll]);
        }
        Some(Vec::new())
    }

    fn on_notional_updated(
        &mut self,
        ctx: &StrategyContext<'_>,
        notional_per_order: Decimal,
    ) -> (result: Vec<Action>)
        ensures
            result@.len() == 0,
            final(self)@ == (FadeState {
                config: if notional_per_order@ > 0 {
                    LiqFadeConfig { notional_per_entry: notional_per_order, ..old(self).config }
                } else {
                    old(self).config
                },
                ..old(self)@
            }),
    {
        if notional_per_order.is_positive() {
            self.config.notional_per_entry = notional_per_order;
        }
        Vec::new()
    }

    fn on_max_position_updated(
        &mut self,
        ctx: &StrategyContext<'_>,
        max_position_usdt: Decimal,
    ) -> (result: Vec<Action>)
        ensures
            result@.len() == 0,
            final(self)@ == (FadeState {
                config: if max_position_usdt@ > 0 {
                    LiqFadeConfig { max_position_usdt, ..old(self).config }
                } else {
                    old(self).config
                },
                ..old(self)@
            }),
    {
        if max_position_usdt.is_positive() {
            self.config.max_position_usdt = max_position_usdt;
        }
        Vec::new()
    }
}

proof fn lemma_counting_keeps_phase(state: FadeState, liqs: Seq<LiqEvent>, n: nat)
    ensures
        counted(state, liqs, n).state == state.state,
        counted(state, liqs, n).armed == state.armed,
        counted(state, liqs, n).trade == state.trade,
        counted(state, liqs, n).config == state.config,
        counted(state, liqs, n).window_ns == state.window_ns,
        counted(state, liqs, n).last_liq_ts_seen >= state.last_liq_ts_seen,
    decreases n,
{
    if n > 0 {
        lemma_counting_keeps_phase(state, liqs, (n - 1) as nat);
    }
}

/// The phases follow each other only along the arrows of the state machine.
pub proof fn law_phase_transitions(state: FadeState, ctx: StrategyContext, event: MarketEvent)
    ensures
        LiqFade::event_step(state, ctx, event) matches Some((next, _)) ==> match state.state {
            LiqFadeState::Idle => next.state is Idle || next.state is Armed,
            LiqFadeState::Armed => next.state is Armed || next.state is Capitulation
                || next.state is Idle,
            LiqFadeState::Capitulation => next.state is Capitulation || next.state is Holding
                || next.state is Idle,
            LiqFadeState::Holding => next.state is Holding || next.state is Idle,
        },
{
    let pruned = FadeState {
        last_event_ts: event_time(event),
        liqs: recent(state.liqs, elapsed(event_time(event), state.window_ns)),
        ..state
    };
    lemma_counting_keeps_phase(pruned, ctx.recent_liqs@, ctx.recent_liqs@.len());
}

/// Whether the armed snapshot and the trade are there in the phases that need them.
pub open spec fn phase_is_backed(state: FadeState) -> bool {
    &&& state.state is Armed ==> state.armed is Some
    &&& state.state is Capitulation ==> state.trade is Some
    &&& state.state is Holding ==> state.trade is Some
}

/// A new strategy, every event and every rejection leave a phase with what it needs.
pub proof fn law_phases_stay_backed(
    state: FadeState,
    ctx: StrategyContext,
    event: MarketEvent,
    intent: QuoteIntent,
    reason: Seq<char>,
)
    requires
        phase_is_backed(state),
    ensures
        LiqFade::initial(state.config) matches Some(new) ==> phase_is_backed(new),
        LiqFade::event_step(state, ctx, event) matches Some((next, _)) ==> phase_is_backed(next),
        LiqFade::rejection_step(state, ctx, intent, reason) matches Some((next, _))
            ==> phase_is_backed(next),
{
    let pruned = FadeState {
        last_event_ts: event_time(event),
        liqs: recent(state.liqs, elapsed(event_time(event), state.window_ns)),
        ..state
    };
    lemma_counting_keeps_phase(pruned, ctx.recent_liqs@, ctx.recent_liqs@.len());
}

/// The entry is one passive order against the forced orders.
pub proof fn law_fades_the_cascade(
    state: FadeState,
    ctx: StrategyContext,
    snap: ArmedSnapshot,
    mid: Price,
    best_bid: Price,
    best_ask: Price,
    now_ns: u64,
)
    requires
        state.state is Armed,
        state.armed == Some(snap),
    ensures
        machine_tick(state, ctx, mid, best_bid, best_ask, now_ns) matches Some((next, actions))
            ==> (next.state is Capitulation ==> actions.len() == 1 && (
        actions[0] matches Action::Quote(quote) && quote.side == opposite(snap.heavy_side)
            && quote.tif is PostOnly)),
{
}

/// The time stop ends a trade, whatever the profit, and flattens what is still held
/// with an immediate order for all of it.
pub proof fn law_time_stop_flattens(
    state: FadeState,
    ctx: StrategyContext,
    trade: TradeState,
    mid: Price,
    best_bid: Price,
    best_ask: Price,
    now_ns: u64,
)
    requires
        state.state is Holding,
        state.trade == Some(trade),
        elapsed(now_ns, trade.phase_started_ts) >= capped_product(
            state.config.position_timeout_secs as int,
            1_000_000_000,
        ),
    ensures
        machine_tick(state, ctx, mid, best_bid, best_ask, now_ns) == Some(
            (
                idle(state),
                if ctx.position.size.0@ == 0 {
                    Seq::<Action>::empty()
                } else {
                    flatten(
                        *ctx.symbol,
                        reducing_side(ctx.position.size.0),
                        absolute(ctx.position.size.0),
                        best_bid,
                        best_ask,
                    )
                },
            ),
        ),
{
}

/// Whether the forced orders come oldest first.
pub open spec fn oldest_first(liqs: Seq<LiqEvent>) -> bool {
    forall|i: int, j: int|
        0 <= i <= j < liqs.len() ==> (#[trigger] liqs[i]).ts.0 <= (#[trigger] liqs[j]).ts.0
}

proof fn lemma_printed_at(liqs: Seq<LiqEvent>, ts: u64, i: nat, n: nat)
    requires
        i <= n,
    ensures
        printed_at(liqs, ts, i) <= printed_at(liqs, ts, n) <= n,
        i < n && liqs[i as int].ts.0 == ts ==> printed_at(liqs, ts, i) < printed_at(liqs, ts, n),
    decreases n,
{
    if i < n {
        lemma_printed_at(liqs, ts, i, (n - 1) as nat);
    } else if n > 0 {
        lemma_printed_at(liqs, ts, (n - 1) as nat, (n - 1) as nat);
    }
}

/// A forced order is counted once: showing ones that were counted changes nothing.
pub proof fn law_forced_orders_count_once(state: FadeState, liqs: Seq<LiqEvent>, n: nat)
    requires
        n <= liqs.len(),
        forall|i: int| 0 <= i < liqs.len() ==> #[trigger] known(state, liqs, i),
    ensures
        counted(state, liqs, n) == state,
    decreases n,
{
    if n > 0 {
        law_forced_orders_count_once(state, liqs, (n - 1) as nat);
        assert(known(state, liqs, n - 1));
    }
}

/// Once counted, every forced order of the context is known, so that the same context
/// adds nothing a second time.
pub proof fn law_counting_catches_up(state: FadeState, liqs: Seq<LiqEvent>, n: nat)
    requires
        n <= liqs.len() <= usize::MAX,
        oldest_first(liqs),
    ensures
        forall|i: int| 0 <= i < n ==> #[trigger] known(counted(state, liqs, n), liqs, i),
        n == liqs.len() ==> counted(counted(state, liqs, n), liqs, n) == counted(state, liqs, n),
    decreases n,
{
    if n > 0 {
        law_counting_catches_up(state, liqs, (n - 1) as nat);
        let before = counted(state, liqs, (n - 1) as nat);
        let after = counted(state, liqs, n);
        let ts = liqs[n - 1].ts.0;
        lemma_printed_at(liqs, ts, n, n);
        assert forall|i: int| 0 <= i < n implies #[trigger] known(after, liqs, i) by {
            if i < n - 1 {
                assert(known(before, liqs, i));
            }
            assert(liqs[i].ts.0 <= liqs[n - 1].ts.0);
            lemma_printed_at(liqs, ts, i as nat, n);
        }
        if n == liqs.len() {
            law_forced_orders_count_once(after, liqs, n);
        }
    }
}

/// The entries of the first `n` forced orders.
pub open spec fn entries_of(liqs: Seq<LiqEvent>, n: nat) -> Seq<(u64, Side, Decimal)> {
    Seq::new(n, |i: int| (liqs[i].ts.0, liqs[i].side, liqs[i].notional.0))
}

proof fn lemma_recent_twice(
    entries: Seq<(u64, Side, Decimal)>,
    more: (u64, Side, Decimal),
    earlier: int,
    later: int,
)
    requires
        earlier <= later,
    ensures
        recent(recent(entries, earlier).push(more), later) == recent(entries.push(more), later),
    decreases entries.len(),
{
    if entries.len() > 0 && entries[0].0 < earlier {
        lemma_recent_twice(entries.drop_first(), more, earlier, later);
        assert(entries.push(more).drop_first() =~= entries.drop_first().push(more));
    }
}

/// Every forced order of the context that is newer than the ones counted before counts,
/// also where several of them printed at one time: the window then holds all of them that
/// are recent enough.
pub proof fn law_every_new_order_counts(state: FadeState, liqs: Seq<LiqEvent>, n: nat)
    requires
        0 < n <= liqs.len() <= usize::MAX,
        oldest_first(liqs),
        forall|i: int|
            0 <= i < liqs.len() ==> (#[trigger] liqs[i]).ts.0 > state.last_liq_ts_seen
                || state.liqs_at_last_ts == 0 && liqs[i].ts.0 == state.last_liq_ts_seen,
    ensures
        counted(state, liqs, n).liqs == recent(
            state.liqs + entries_of(liqs, n),
            elapsed(liqs[n - 1].ts.0, state.window_ns),
        ),
        counted(state, liqs, n).last_liq_ts_seen == liqs[n - 1].ts.0,
        counted(state, liqs, n).liqs_at_last_ts == printed_at(liqs, liqs[n - 1].ts.0, n),
        counted(state, liqs, n).window_ns == state.window_ns,
    decreases n,
{
    let ts = liqs[n - 1].ts.0;
    let entry = (ts, liqs[n - 1].side, liqs[n - 1].notional.0);
    lemma_printed_at(liqs, ts, n, n);
    if n == 1 {
        assert(state.liqs + entries_of(liqs, 1) =~= state.liqs.push(entry));
    } else {
        law_every_new_order_counts(state, liqs, (n - 1) as nat);
        let before = counted(state, liqs, (n - 1) as nat);
        let earlier = liqs[n - 2].ts.0;
        assert(earlier <= ts);
        let all = state.liqs + entries_of(liqs, (n - 1) as nat);
        assert(all.push(entry) =~= state.liqs + entries_of(liqs, n));
        lemma_recent_twice(
            all,
            entry,
            elapsed(earlier, state.window_ns),
            elapsed(ts, state.window_ns),
        );
    }
}

/// No event and no rejection calls for an order in another instrument.
pub proof fn law_quotes_its_instrument(
    state: FadeState,
    ctx: StrategyContext,
    event: MarketEvent,
    intent: QuoteIntent,
    reason: Seq<char>,
)
    ensures
        LiqFade::event_step(state, ctx, event) matches Some((_, actions)) ==> keeps_to(
            actions,
            *ctx.symbol,
        ),
        LiqFade::rejection_step(state, ctx, intent, reason) matches Some((_, actions)) ==> keeps_to(
            actions,
            *ctx.symbol,
        ),
{
}

/// While armed by forced asks nothing is quoted unless the mid lies at least
/// `capitulation_overshoot_bps` below the armed mid, above it for forced bids; and the quote is
/// on the side against the forced orders.
pub proof fn law_waits_for_the_overshoot(
    state: FadeState,
    ctx: StrategyContext,
    mid: Price,
    best_bid: Price,
    best_ask: Price,
    now_ns: u64,
    snap: ArmedSnapshot,
    away: Decimal,
    below: Decimal,
    above: Decimal,
)
    requires
        state.state is Armed,
        state.armed == Some(snap),
        quotient(whole(state.config.capitulation_overshoot_bps as int), whole(10_000)) == Some(
            away,
        ),
        times(Some(snap.pre_liq_mid.0), difference(whole(1), away)) == Some(below),
        below@ * 10_000 == snap.pre_liq_mid.0@ * (10_000 - state.config.capitulation_overshoot_bps),
        times(Some(snap.pre_liq_mid.0), sum(whole(1), away)) == Some(above),
        above@ * 10_000 == snap.pre_liq_mid.0@ * (10_000 + state.config.capitulation_overshoot_bps),
    ensures
        machine_tick(state, ctx, mid, best_bid, best_ask, now_ns) matches Some((next, actions))
            ==> {
            let armed = snap.pre_liq_mid.0@;
            let bps = state.config.capitulation_overshoot_bps;
            &&& actions.len() > 0 && snap.heavy_side is Ask ==> mid.0@ * 10_000 <= armed * (10_000
                - bps) && quotes_on(actions, Side::Bid) && !quotes_on(actions, Side::Ask)
            &&& actions.len() > 0 && snap.heavy_side is Bid ==> mid.0@ * 10_000 >= armed * (10_000
                + bps) && quotes_on(actions, Side::Ask) && !quotes_on(actions, Side::Bid)
            &&& mid.0@ == armed && armed > 0 && bps > 0 ==> actions.len() == 0 && (next == state
                || next.state is Idle)
            &&& mid.0@ == armed && armed > 0 && bps > 0 && 0 <= now_ns - snap.armed_ts
                < state.config.entry_timeout_secs * 1_000_000_000 ==> next == state
        },
{
    let (armed, bps) = (snap.pre_liq_mid.0@, state.config.capitulation_overshoot_bps as int);
    assert(armed > 0 && bps > 0 ==> armed * (10_000 - bps) < armed * 10_000 && armed * (10_000
        + bps) > armed * 10_000) by (nonlinear_arith);
    if let Some((next, actions)) = machine_tick(state, ctx, mid, best_bid, best_ask, now_ns) {
        if actions.len() > 0 {
            assert(actions.len() == 1);
            assert(actions[0] is Quote);
        }
    }
}

/// The strategy arms on the side whose forced orders reach the threshold while the other side
/// stays within its share, and keeps the mid at which it armed.
pub proof fn law_arms_on_the_heavy_side(
    state: FadeState,
    mid: Price,
    now_ns: u64,
    bids: Decimal,
    asks: Decimal,
    most_asks: Decimal,
    most_bids: Decimal,
)
    requires
        side_total(state.liqs, Side::Bid) == Some(bids),
        side_total(state.liqs, Side::Ask) == Some(asks),
        product(bids, state.config.arm_dominance) == Some(most_asks),
        product(asks, state.config.arm_dominance) == Some(most_bids),
    ensures
        ({
            let threshold = state.config.arm_threshold_usdt@;
            let heavy_bids = bids@ >= threshold && asks@ <= most_asks@;
            let heavy_asks = asks@ >= threshold && bids@ <= most_bids@;
            let (next, actions) = idle_tick(state, mid, now_ns)->0;
            &&& idle_tick(state, mid, now_ns) is Some
            &&& actions.len() == 0
            &&& next.state is Armed || next == state
            &&& heavy_bids ==> next.armed == Some(
                ArmedSnapshot { pre_liq_mid: mid, heavy_side: Side::Bid, armed_ts: now_ns },
            )
            &&& heavy_asks && !heavy_bids ==> next.armed == Some(
                ArmedSnapshot { pre_liq_mid: mid, heavy_side: Side::Ask, armed_ts: now_ns },
            )
            &&& !heavy_asks && !heavy_bids ==> next == state
        }),
{
}

/// A forced order counts on its own side alone.
pub proof fn law_forced_orders_count_on_their_side(
    entries: Seq<(u64, Side, Decimal)>,
    ts: u64,
    side: Side,
    notional: Decimal,
)
    ensures
        side_total(entries.push((ts, side, notional)), side) == plus(
            side_total(entries, side),
            Some(notional),
        ),
        side_total(entries.push((ts, side, notional)), opposite(side)) == side_total(
            entries,
            opposite(side),
        ),
{
    assert(entries.push((ts, side, notional)).drop_last() =~= entries);
}

/// What has left the window is dropped and nothing else.
pub proof fn law_window_keeps_the_recent(entries: Seq<(u64, Side, Decimal)>, cutoff: int)
    ensures
        recent(entries, cutoff).len() <= entries.len(),
        recent(entries, cutoff) == entries.skip(entries.len() - recent(entries, cutoff).len()),
        recent(entries, cutoff).len() > 0 ==> recent(entries, cutoff)[0].0 >= cutoff,
        forall|i: int|
            0 <= i < entries.len() - recent(entries, cutoff).len() ==> (#[trigger] entries[i]).0
                < cutoff,
    decreases entries.len(),
{
    if entries.len() > 0 && entries[0].0 < cutoff {
        let rest = entries.drop_first();
        law_window_keeps_the_recent(rest, cutoff);
        let n = recent(rest, cutoff).len();
        assert(rest.skip(rest.len() - n) =~= entries.skip(entries.len() - n));
        assert forall|i: int| 0 <= i < entries.len() - n implies (#[trigger] entries[i]).0
            < cutoff by {
            if i > 0 {
                assert(rest[i - 1] == entries[i]);
            }
        }
    } else {
        assert(entries.skip(0) =~= entries);
    }
}

/// The fade joins beyond the touch on its own side: below the best bid after forced asks, above
/// the best ask after forced bids.
pub proof fn law_fade_quotes_beyond_its_touch(
    config: LiqFadeConfig,
    best_bid: Price,
    best_ask: Price,
)
    ensures
        ({
            let away = quotient(whole(config.fade_offset_bps as int), whole(10_000));
            &&& fade_price(config, Side::Ask, best_bid, best_ask) == times(
                Some(best_bid.0),
                minus(Some(whole(1)), away),
            )
            &&& fade_price(config, Side::Bid, best_bid, best_ask) == times(
                Some(best_ask.0),
                plus(Some(whole(1)), away),
            )
        }),
{
}

/// The fill of a fade bid is answered by an ask `revert_target_bps` short of the armed mid, that
/// of a fade ask by a bid as far above it; a fill on the other side changes nothing.
pub proof fn law_target_is_short_of_the_armed_mid(
    state: FadeState,
    ctx: StrategyContext,
    fill: Fill,
    trade: TradeState,
)
    requires
        state.state is Capitulation,
        state.trade == Some(trade),
    ensures
        fill_tick(state, ctx, fill) matches Some((next, actions)) ==> {
            let away = quotient(whole(state.config.revert_target_bps as int), whole(10_000));
            &&& fill.side != trade.entry_side ==> next == state && actions.len() == 0
            &&& fill.side == trade.entry_side ==> {
                let order = actions[0]->Quote_0;
                &&& next.state is Holding && next.trade is Some
                &&& actions.len() == 1 && actions[0] is Quote
                &&& fill.side is Bid ==> order.side is Ask && Some(order.price.0) == times(
                    Some(trade.pre_liq_mid.0),
                    minus(Some(whole(1)), away),
                )
                &&& fill.side is Ask ==> order.side is Bid && Some(order.price.0) == times(
                    Some(trade.pre_liq_mid.0),
                    plus(Some(whole(1)), away),
                )
            }
        },
{
}

/// A fade quote that is not filled is pulled once its time is up, and stands until then.
pub proof fn law_entry_times_out(state: FadeState, trade: TradeState, now_ns: u64)
    requires
        state.trade == Some(trade),
        trade.phase_started_ts <= now_ns,
    ensures
        now_ns - trade.phase_started_ts >= state.config.entry_timeout_secs * 1_000_000_000
            ==> capitulation_tick(state, now_ns) == (idle(state), seq![Action::CancelAll]),
        now_ns - trade.phase_started_ts < state.config.entry_timeout_secs * 1_000_000_000
            ==> capitulation_tick(state, now_ns) == (state, Seq::<Action>::empty()),
{
}

/// While armed the strategy waits no longer than the entry may take.
pub proof fn law_arming_times_out(
    state: FadeState,
    ctx: StrategyContext,
    mid: Price,
    best_bid: Price,
    best_ask: Price,
    now_ns: u64,
    snap: ArmedSnapshot,
)
    requires
        state.armed == Some(snap),
        now_ns - snap.armed_ts >= state.config.entry_timeout_secs * 1_000_000_000,
    ensures
        armed_tick(state, ctx, mid, best_bid, best_ask, now_ns) == Some(
            (idle(state), Seq::<Action>::empty()),
        ),
        idle(state).state is Idle && idle(state).armed is None && idle(state).trade is None,
{
}

/// A position at its cap is not faded into; a position on the other side does not count.
pub proof fn law_cap_counts_the_same_side(
    config: LiqFadeConfig,
    ctx: StrategyContext,
    mid: Price,
    value: Decimal,
)
    requires
        config.max_position_usdt@ > 0,
        product(ctx.position.size.0, mid.0) == Some(value),
        negated(config.max_position_usdt)@ == -config.max_position_usdt@,
    ensures
        at_position_cap(config, ctx, mid, Side::Bid) == Some(value@ >= config.max_position_usdt@),
        at_position_cap(config, ctx, mid, Side::Ask) == Some(-value@ >= config.max_position_usdt@),
{
}

/// A held trade is given up when its time is up, or where the stop of the risk policy closes it;
/// never before.
pub proof fn law_holding_ends_by_time_or_stop(
    state: FadeState,
    ctx: StrategyContext,
    mid: Price,
    best_bid: Price,
    best_ask: Price,
    now_ns: u64,
    trade: TradeState,
)
    requires
        state.trade == Some(trade),
        trade.phase_started_ts <= now_ns,
    ensures
        ({
            let late = now_ns - trade.phase_started_ts >= state.config.position_timeout_secs
                * 1_000_000_000;
            let exit = exit_actions(state, ctx, mid, best_bid, best_ask, now_ns);
            &&& late ==> exit is Some && exit->0 is Some
            &&& !late && state.config.stop_loss_bps == 0 ==> exit == Some(None::<Seq<Action>>)
            &&& !late && exit is Some && exit->0 is Some ==> (risk_decision(
                *ctx.position,
                mid,
                (RiskConfig {
                    take_profit_bps: 0,
                    stop_loss_bps: state.config.stop_loss_bps,
                    take_profit_usdt_legacy: whole(0),
                }),
            ) matches Some(decision) && decision is Close)
        }),
{
}

/// A rejected fade quote ends the attempt and cancels what is left of it; a rejection in any
/// other phase changes nothing.
pub proof fn law_rejection_ends_the_attempt(
    state: FadeState,
    ctx: StrategyContext,
    intent: QuoteIntent,
    reason: Seq<char>,
)
    ensures
        LiqFade::rejection_step(state, ctx, intent, reason) matches Some((next, actions)) && {
            &&& state.state is Capitulation ==> next.state is Idle && next.trade is None && actions
                == seq![Action::CancelAll]
            &&& !(state.state is Capitulation) ==> next == state && actions.len() == 0
        },
{
}

/// A quote is in the size that its notional buys at its price, never below the minimum.
pub proof fn law_quotes_are_sized_at_their_price(
    config: LiqFadeConfig,
    symbol: Symbol,
    side: Side,
    price: Decimal,
)
    ensures
        entry_quote(config, symbol, side, price) matches Some(action) ==> {
            let order = action->Quote_0;
            &&& action is Quote && order.side == side && order.price.0 == price
                && order.tif is PostOnly
            &&& floored_lot_size(
                config.notional_per_entry,
                price,
                config.step_size,
                config.min_notional,
            ) == Some(order.size.0)
        },
{
}

} // verus!
