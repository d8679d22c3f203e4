//! The strategy interface: what a strategy reads, what it emits, and what every
//! strategy promises.

use crate::decimal::Decimal;
use crate::market::{
    Fill, LiqEvent, MarketEvent, Position, QuoteId, QuoteIntent, Side, Snapshot, Symbol, Timestamp,
};
use vstd::prelude::*;

verus! {

/// Everything a strategy may read while it handles an event.
pub struct StrategyContext<'a> {
    /// The instrument the strategy trades.
    pub symbol: &'a Symbol,
    /// Current time.
    pub now: Timestamp,
    /// Current position.
    pub position: &'a Position,
    /// Recent fills, oldest first.
    pub recent_fills: &'a [Fill],
    /// Latest book.
    pub latest_book: &'a Snapshot,
    /// Quotes currently resting on the venue.
    pub open_quotes: &'a [(QuoteId, QuoteIntent)],
    /// Recent forced orders.
    pub recent_liqs: &'a [LiqEvent],
}

/// What a strategy asks of the executor.
#[derive(Debug)]
pub enum Action {
    /// Place a new quote.
    Quote(QuoteIntent),
    /// Replace a resting quote.
    Requote {
        /// Quote to replace.
        id: QuoteId,
        /// What replaces it.
        intent: QuoteIntent,
    },
    /// Cancel one quote.
    Cancel(QuoteId),
    /// Cancel every quote.
    CancelAll,
    /// Do nothing.
    NoOp,
}

impl Clone for Action {
    fn clone(&self) -> (result: Action)
        ensures
            result == *self,
    {
        match self {
            Action::Quote(intent) => Action::Quote(intent.clone()),
            Action::Requote { id, intent } => Action::Requote { id: *id, intent: intent.clone() },
            Action::Cancel(id) => Action::Cancel(*id),
            Action::CancelAll => Action::CancelAll,
            Action::NoOp => Action::NoOp,
        }
    }
}

/// Whether an operation that was to take the state and return the actions of `step`
/// did so, and reported a missing step as `None`.
pub open spec fn follows<V>(
    step: Option<(V, Seq<Action>)>,
    result: Option<Vec<Action>>,
    state: V,
) -> bool {
    match step {
        Some(step) => result is Some && result->0@ =~= step.1 && state == step.0,
        None => result is None,
    }
}

/// Whether some action places or replaces a quote on this side.
pub open spec fn quotes_on(actions: Seq<Action>, side: Side) -> bool {
    exists|i: int|
        0 <= i < actions.len() && match #[trigger] actions[i] {
            Action::Quote(intent) => intent.side == side,
            Action::Requote { intent, .. } => intent.side == side,
            _ => false,
        }
}

/// Actions that quote nothing on a side do not when put together.
pub proof fn lemma_quotes_on_joined(a: Seq<Action>, b: Seq<Action>, side: Side)
    requires
        !quotes_on(a, side),
        !quotes_on(b, side),
    ensures
        !quotes_on(a + b, side),
{
    assert forall|i: int| 0 <= i < (a + b).len() implies match #[trigger] (a + b)[i] {
        Action::Quote(intent) => intent.side != side,
        Action::Requote { intent, .. } => intent.side != side,
        _ => true,
    } by {
        if i < a.len() {
            assert((a + b)[i] == a[i]);
        } else {
            assert((a + b)[i] == b[i - a.len()]);
        }
    }
}

/// Whether every order among some actions is for this instrument.
pub open spec fn keeps_to(actions: Seq<Action>, symbol: Symbol) -> bool {
    forall|i: int|
        0 <= i < actions.len() ==> match #[trigger] actions[i] {
            Action::Quote(intent) => intent.symbol == symbol,
            Action::Requote { intent, .. } => intent.symbol == symbol,
            _ => true,
        }
}

/// Whether every one of some orders is for this instrument.
pub open spec fn all_for(orders: Seq<QuoteIntent>, symbol: Symbol) -> bool {
    forall|i: int| 0 <= i < orders.len() ==> (#[trigger] orders[i]).symbol == symbol
}

/// Actions that keep to an instrument do so when put together.
pub proof fn lemma_keeps_to_joined(a: Seq<Action>, b: Seq<Action>, symbol: Symbol)
    requires
        keeps_to(a, symbol),
        keeps_to(b, symbol),
    ensures
        keeps_to(a + b, symbol),
{
    assert forall|i: int| 0 <= i < (a + b).len() implies match #[trigger] (a + b)[i] {
        Action::Quote(intent) => intent.symbol == symbol,
        Action::Requote { intent, .. } => intent.symbol == symbol,
        _ => true,
    } by {
        if i < a.len() {
            assert((a + b)[i] == a[i]);
        } else {
            assert((a + b)[i] == b[i - a.len()]);
        }
    }
}

/// A single-symbol market-making strategy.
///
/// A strategy is deterministic and does no I/O: everything it reads arrives in
/// the [`StrategyContext`] and the [`MarketEvent`], and what it returns and
/// becomes is a mathematical function of those and of its state. The spec
/// functions of the trait are that function. They are `None` exactly where some
/// intermediate number leaves the range of its type (or a divisor is zero), so
/// that there is no result to return.
///
/// Each operation comes twice: the `try_` form accepts every input and reports
/// such a failure as `None`; the plain form asks the caller to rule it out.
pub trait Strategy: Sized + View + Send {
    /// Settings of the strategy.
    type Config: Send + Clone;

    /// The state of a new strategy.
    spec fn initial(config: Self::Config) -> Option<Self::V>;

    /// The state after an event, and the actions it calls for.
    spec fn event_step(state: Self::V, ctx: StrategyContext, event: MarketEvent) -> Option<
        (Self::V, Seq<Action>),
    >;

    /// The state after the venue rejected a quote, and the actions that calls for.
    spec fn rejection_step(
        state: Self::V,
        ctx: StrategyContext,
        intent: QuoteIntent,
        reason: Seq<char>,
    ) -> Option<(Self::V, Seq<Action>)>;

    /// A new strategy, or `None` where a derived setting cannot be represented.
    fn try_new(config: Self::Config) -> (result: Option<Self>)
        ensures
            match Self::initial(config) {
                Some(state) => result is Some && result->0@ == state,
                None => result is None,
            },
    ;

    /// A new strategy.
    fn new(config: Self::Config) -> (result: Self)
        requires
            Self::initial(config) is Some,
        ensures
            Self::initial(config) == Some(result@),
    {
        Self::try_new(config).unwrap()
    }

    /// A short name for logs.
    fn name(&self) -> (result: &str);

    /// Handles one event, or returns `None` where a number it needs cannot be
    /// represented; the state is then of no further use.
    fn try_on_event(&mut self, ctx: &StrategyContext<'_>, event: &MarketEvent) -> (result: Option<
        Vec<Action>,
    >)
        ensures
            follows(Self::event_step(old(self)@, *ctx, *event), result, final(self)@),
    ;

    /// Handles one event.
    fn on_event(&mut self, ctx: &StrategyContext<'_>, event: &MarketEvent) -> (result: Vec<Action>)
        requires
            Self::event_step(old(self)@, *ctx, *event) is Some,
        ensures
            Self::event_step(old(self)@, *ctx, *event) == Some((final(self)@, result@)),
    {
        self.try_on_event(ctx, event).unwrap()
    }

    /// Handles the rejection of a quote, or returns `None` where a number it needs
    /// cannot be represented; the state is then of no further use.
    fn try_on_quote_rejected(
        &mut self,
        ctx: &StrategyContext<'_>,
        intent: &QuoteIntent,
        reason: &str,
    ) -> (result: Option<Vec<Action>>)
        ensures
            follows(
                Self::rejection_step(old(self)@, *ctx, *intent, reason@),
                result,
                final(self)@,
            ),
    ;

    /// Handles the rejection of a quote.
    fn on_quote_rejected(
        &mut self,
        ctx: &StrategyContext<'_>,
        intent: &QuoteIntent,
        reason: &str,
    ) -> (result: Vec<Action>)
        requires
            Self::rejection_step(old(self)@, *ctx, *intent, reason@) is Some,
        ensures
            Self::rejection_step(old(self)@, *ctx, *intent, reason@) == Some(
                (final(self)@, result@),
            ),
    {
        self.try_on_quote_rejected(ctx, intent, reason).unwrap()
    }

    /// Periodic pulse. By default nothing happens.
    fn on_tick(&mut self, ctx: &StrategyContext<'_>) -> (result: Vec<Action>)
        default_ensures
            result@ == Seq::<Action>::empty(),
            *final(self) == *old(self),
    {
        Vec::new()
    }

    /// How often [`Strategy::on_tick`] should run, if at all. By default never.
    fn tick_interval(&self) -> (result: Option<core::time::Duration>)
        default_ensures
            result is None,
    {
        None
    }

    /// Last call before shutdown. By default nothing happens.
    fn on_shutdown(&mut self, ctx: &StrategyContext<'_>) -> (result: Vec<Action>)
        default_ensures
            result@ == Seq::<Action>::empty(),
            *final(self) == *old(self),
    {
        Vec::new()
    }

    /// The order notional allotted to the strategy changed. By default it is
    /// ignored.
    fn on_notional_updated(
        &mut self,
        ctx: &StrategyContext<'_>,
        notional_per_order: Decimal,
    ) -> (result: Vec<Action>)
        default_ensures
            result@ == Seq::<Action>::empty(),
            *final(self) == *old(self),
    {
        Vec::new()
    }

    /// The position cap allotted to the strategy changed. By default it is ignored.
    fn on_max_position_updated(
        &mut self,
        ctx: &StrategyContext<'_>,
        max_position_usdt: Decimal,
    ) -> (result: Vec<Action>)
        default_ensures
            result@ == Seq::<Action>::empty(),
            *final(self) == *old(self),
    {
        Vec::new()
    }

    /// Named figures for a status line. By default none.
    fn status_metrics(&self) -> (result: Vec<(&'static str, String)>)
        default_ensures
            result@.len() == 0,
    {
        Vec::new()
    }
}

/// State that outlives a restart. By default there is none.
pub trait StrategyResume: Sized {
    /// The state as bytes, if there is any to keep.
    fn serialize_state(&self) -> (result: Option<Vec<u8>>)
        default_ensures
            result is None,
    {
        None
    }

    /// Takes back what [`StrategyResume::serialize_state`] gave.
    fn restore_state(&mut self, bytes: &[u8])
        default_ensures
            *final(self) == *old(self),
    {
    }
}

/// The outcome of feeding a strategy a sequence of events: its last state and the
/// actions each event called for.
pub open spec fn run<S: Strategy>(
    state: S::V,
    inputs: Seq<(StrategyContext, MarketEvent)>,
) -> Option<(S::V, Seq<Seq<Action>>)>
    decreases inputs.len(),
{
    if inputs.len() == 0 {
        Some((state, Seq::empty()))
    } else {
        match run::<S>(state, inputs.drop_last()) {
            None => None,
            Some(done) => match S::event_step(done.0, inputs.last().0, inputs.last().1) {
                None => None,
                Some(step) => Some((step.0, done.1.push(step.1))),
            },
        }
    }
}

/// Replaying a session in two parts, the second from the state the first left,
/// gives the same states and actions as replaying it in one.
pub proof fn law_replay_splits<S: Strategy>(
    state: S::V,
    first: Seq<(StrategyContext, MarketEvent)>,
    second: Seq<(StrategyContext, MarketEvent)>,
)
    ensures
        run::<S>(state, first + second) == match run::<S>(state, first) {
            None => None,
            Some(done) => match run::<S>(done.0, second) {
                None => None,
                Some(rest) => Some((rest.0, done.1 + rest.1)),
            },
        },
    decreases second.len(),
{
    if second.len() == 0 {
        assert(first + second =~= first);
        match run::<S>(state, first) {
            None => {},
            Some(done) => {
                assert(done.1 + Seq::<Seq<Action>>::empty() =~= done.1);
            },
        }
    } else {
        let whole = first + second;
        assert(whole.drop_last() =~= first + second.drop_last());
        assert(whole.last() == second.last());
        law_replay_splits::<S>(state, first, second.drop_last());
        match run::<S>(state, first) {
            None => {},
            Some(done) => match run::<S>(done.0, second.drop_last()) {
                None => {},
                Some(rest) => match S::event_step(rest.0, second.last().0, second.last().1) {
                    None => {},
                    Some(step) => {
                        assert((done.1 + rest.1).push(step.1) =~= done.1 + rest.1.push(step.1));
                    },
                },
            },
        }
    }
}

/// Whether a strategy with these settings, fed these inputs in order, can have stood in
/// these states and called for these actions: it was made from its settings, and every
/// event was handled from the state that the one before left.
pub open spec fn is_session<S: Strategy>(
    config: S::Config,
    inputs: Seq<(StrategyContext, MarketEvent)>,
    states: Seq<S::V>,
    outputs: Seq<Seq<Action>>,
) -> bool {
    &&& states.len() == inputs.len() + 1
    &&& outputs.len() == inputs.len()
    &&& S::initial(config) == Some(states[0])
    &&& forall|i: int|
        0 <= i < inputs.len() ==> S::event_step(
            #[trigger] states[i],
            inputs[i].0,
            inputs[i].1,
        ) == Some((states[i + 1], outputs[i]))
}

proof fn lemma_states_agree<S: Strategy>(
    config: S::Config,
    inputs: Seq<(StrategyContext, MarketEvent)>,
    states: Seq<S::V>,
    outputs: Seq<Seq<Action>>,
    other_states: Seq<S::V>,
    other_outputs: Seq<Seq<Action>>,
    n: nat,
)
    requires
        is_session::<S>(config, inputs, states, outputs),
        is_session::<S>(config, inputs, other_states, other_outputs),
        n <= inputs.len(),
    ensures
        states[n as int] == other_states[n as int],
    decreases n,
{
    if n > 0 {
        lemma_states_agree::<S>(
            config,
            inputs,
            states,
            outputs,
            other_states,
            other_outputs,
            (n - 1) as nat,
        );
        assert(states[n - 1] == other_states[n - 1]);
    }
}

/// Strategies are deterministic: with the same settings and the same events, two
/// instances go through the same states and call for the same actions.
pub proof fn law_deterministic<S: Strategy>(
    config: S::Config,
    inputs: Seq<(StrategyContext, MarketEvent)>,
    states: Seq<S::V>,
    outputs: Seq<Seq<Action>>,
    other_states: Seq<S::V>,
    other_outputs: Seq<Seq<Action>>,
)
    requires
        is_session::<S>(config, inputs, states, outputs),
        is_session::<S>(config, inputs, other_states, other_outputs),
    ensures
        states == other_states,
        outputs == other_outputs,
{
    assert forall|i: int| 0 <= i < states.len() implies states[i] == other_states[i] by {
        lemma_states_agree::<S>(
            config,
            inputs,
            states,
            outputs,
            other_states,
            other_outputs,
            i as nat,
        );
    }
    assert(states =~= other_states);
    assert forall|i: int| 0 <= i < outputs.len() implies outputs[i] == other_outputs[i] by {
        assert(states[i] == other_states[i]);
    }
    assert(outputs =~= other_outputs);
}

} // verus!
