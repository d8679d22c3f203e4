//! The strategy's own view of its resting quotes, at most one per side.
//!
//! Every quote it emits is recorded here on the way out; reconciling with the
//! venue's open quotes stamps ids, refreshes sizes and drops what is gone.

use crate::market::{Price, QuoteId, QuoteIntent, Side, Size};
use vstd::prelude::*;

verus! {

/// A quote the strategy believes is resting on the venue.
#[derive(Clone, Copy, Debug, PartialEq, Eq)]
pub struct Resting {
    /// Venue id. `None` while the quote is in flight.
    pub id: Option<QuoteId>,
    /// Quoted side.
    pub side: Side,
    /// Quoted price.
    pub price: Price,
    /// Size currently resting; partial fills shrink it at the next reconcile.
    pub size: Size,
}

/// Quotes by side.
#[derive(Clone, Copy, Debug)]
pub struct RestingOrders {
    /// Quote on the bid side.
    pub bid: Option<Resting>,
    /// Quote on the ask side.
    pub ask: Option<Resting>,
}

/// The quote tracked on a side.
pub open spec fn quote_on(orders: RestingOrders, side: Side) -> Option<Resting> {
    match side {
        Side::Bid => orders.bid,
        Side::Ask => orders.ask,
    }
}

/// The book with one side replaced.
pub open spec fn with_side(orders: RestingOrders, side: Side, quote: Option<Resting>) -> RestingOrders {
    match side {
        Side::Bid => RestingOrders { bid: quote, ..orders },
        Side::Ask => RestingOrders { ask: quote, ..orders },
    }
}

/// Nothing tracked.
pub open spec fn none_resting() -> RestingOrders {
    RestingOrders { bid: None, ask: None }
}

/// An order as it is tracked before the venue acknowledges it.
pub open spec fn in_flight(intent: QuoteIntent) -> Resting {
    Resting { id: None, side: intent.side, price: intent.price, size: intent.size }
}

/// Whether the venue shows a quote on this side.
pub open spec fn venue_shows(open: Seq<(QuoteId, QuoteIntent)>, side: Side) -> bool {
    exists|i: int| 0 <= i < open.len() && (#[trigger] open[i]).1.side == side
}

/// The position of the last open quote on this side.
pub open spec fn last_on(open: Seq<(QuoteId, QuoteIntent)>, side: Side) -> int
    decreases open.len(),
{
    if open.len() == 0 {
        -1
    } else if open.last().1.side == side {
        open.len() - 1
    } else {
        last_on(open.drop_last(), side)
    }
}

/// What reconciling makes of one tracked side: dropped where the venue shows
/// nothing there, else stamped with the id and size of the venue's last quote on
/// that side. The price stays.
pub open spec fn reconciled_side(
    quote: Option<Resting>,
    open: Seq<(QuoteId, QuoteIntent)>,
    side: Side,
) -> Option<Resting> {
    let at = last_on(open, side);
    if quote is None || at < 0 {
        None
    } else {
        Some(Resting { id: Some(open[at].0), size: open[at].1.size, ..quote->0 })
    }
}

/// The book after reconciling with the venue's open quotes.
pub open spec fn reconciled(orders: RestingOrders, open: Seq<(QuoteId, QuoteIntent)>) -> RestingOrders {
    RestingOrders {
        bid: reconciled_side(orders.bid, open, Side::Bid),
        ask: reconciled_side(orders.ask, open, Side::Ask),
    }
}

/// `last_on` finds a quote on the side exactly where the venue shows one.
pub proof fn lemma_last_on(open: Seq<(QuoteId, QuoteIntent)>, side: Side)
    ensures
        -1 <= last_on(open, side) < open.len(),
        last_on(open, side) >= 0 ==> open[last_on(open, side)].1.side == side,
        last_on(open, side) >= 0 <==> venue_shows(open, side),
        forall|i: int|
            last_on(open, side) < i < open.len() ==> (#[trigger] open[i]).1.side != side,
    decreases open.len(),
{
    if open.len() > 0 && open.last().1.side != side {
        let shorter = open.drop_last();
        lemma_last_on(shorter, side);
        assert forall|i: int| last_on(open, side) < i < open.len() implies (
        #[trigger] open[i]).1.side != side by {
            if i < shorter.len() {
                assert(shorter[i] == open[i]);
            }
        }
        if venue_shows(shorter, side) {
            let i = choose|i: int| 0 <= i < shorter.len() && (#[trigger] shorter[i]).1.side == side;
            assert(open[i].1.side == side);
        }
    }
}

impl Default for RestingOrders {
    fn default() -> (result: RestingOrders)
        ensures
            result == none_resting(),
    {
        RestingOrders { bid: None, ask: None }
    }
}

impl RestingOrders {
    /// Nothing tracked.
    pub fn new() -> (result: RestingOrders)
        ensures
            result == none_resting(),
    {
        RestingOrders { bid: None, ask: None }
    }

    /// The quote tracked on `side`, if any.
    pub fn current_for(&self, side: Side) -> (result: Option<&Resting>)
        ensures
            match quote_on(*self, side) {
                Some(quote) => result == Some(&quote),
                None => result is None,
            },
    {
        match side {
            Side::Bid => self.bid.as_ref(),
            Side::Ask => self.ask.as_ref(),
        }
    }

    /// Tracks an order that was just emitted.
    pub fn record_place(&mut self, intent: &QuoteIntent)
        ensures
            *final(self) == with_side(*old(self), intent.side, Some(in_flight(*intent))),
    {
        let quote = Resting {
            id: None,
            side: intent.side,
            price: intent.price,
            size: intent.size,
        };
        match intent.side {
            Side::Bid => {
                self.bid = Some(quote);
            },
            Side::Ask => {
                self.ask = Some(quote);
            },
        }
    }

    /// Forgets the quote on `side`.
    pub fn drop_side(&mut self, side: Side)
        ensures
            *final(self) == with_side(*old(self), side, None),
    {
        match side {
            Side::Bid => {
                self.bid = None;
            },
            Side::Ask => {
                self.ask = None;
            },
        }
    }

    /// Forgets both sides.
    pub fn drop_all(&mut self)
        ensures
            *final(self) == none_resting(),
    {
        self.bid = None;
        self.ask = None;
    }

    /// Refreshes both sides from the venue's open quotes; see [`reconciled`].
    pub fn reconcile(&mut self, ctx_open: &[(QuoteId, QuoteIntent)])
        ensures
            *final(self) == reconciled(*old(self), ctx_open@),
    {
        let mut bid_at: Option<usize> = None;
        let mut ask_at: Option<usize> = None;
        let mut i: usize = 0;
        while i < ctx_open.len()
            invariant
                i <= ctx_open@.len(),
                match bid_at {
                    Some(at) => at < i && last_on(ctx_open@.take(i as int), Side::Bid) == at,
                    None => last_on(ctx_open@.take(i as int), Side::Bid) == -1,
                },
                match ask_at {
                    Some(at) => at < i && last_on(ctx_open@.take(i as int), Side::Ask) == at,
                    None => last_on(ctx_open@.take(i as int), Side::Ask) == -1,
                },
            decreases ctx_open@.len() - i,
        {
            assert(ctx_open@.take(i + 1).drop_last() =~= ctx_open@.take(i as int));
            match ctx_open[i].1.side {
                Side::Bid => {
                    bid_at = Some(i);
                },
                Side::Ask => {
                    ask_at = Some(i);
                },
            }
            i = i + 1;
        }
        assert(ctx_open@.take(i as int) =~= ctx_open@);
        self.bid = Self::refreshed(self.bid, bid_at, ctx_open);
        self.ask = Self::refreshed(self.ask, ask_at, ctx_open);
    }

    fn refreshed(
        quote: Option<Resting>,
        at: Option<usize>,
        ctx_open: &[(QuoteId, QuoteIntent)],
    ) -> (result: Option<Resting>)
        requires
            at matches Some(i) ==> i < ctx_open@.len(),
        ensures
            match (quote, at) {
                (Some(quote), Some(i)) => result == Some(
                    Resting {
                        id: Some(ctx_open@[i as int].0),
                        size: ctx_open@[i as int].1.size,
                        ..quote
                    },
                ),
                _ => result is None,
            },
    {
        match (quote, at) {
            (Some(quote), Some(i)) => Some(
                Resting {
                    id: Some(ctx_open[i].0),
                    side: quote.side,
                    price: quote.price,
                    size: ctx_open[i].1.size,
                },
            ),
            _ => None,
        }
    }

    /// Number of sides tracked.
    pub fn len(&self) -> (result: usize)
        ensures
            result == (if self.bid is Some {
                1int
            } else {
                0
            }) + (if self.ask is Some {
                1int
            } else {
                0
            }),
    {
        let bids: usize = if self.bid.is_some() {
            1
        } else {
            0
        };
        let asks: usize = if self.ask.is_some() {
            1
        } else {
            0
        };
        bids + asks
    }

    /// Whether neither side is tracked.
    pub fn is_empty(&self) -> (result: bool)
        ensures
            result == (*self == none_resting()),
    {
        self.bid.is_none() && self.ask.is_none()
    }
}

/// Reading a side back after recording an order on it gives that order, in flight;
/// the other side is as it was.
pub proof fn law_place_is_read_back(orders: RestingOrders, intent: QuoteIntent, other: Side)
    requires
        other != intent.side,
    ensures
        ({
            let placed = with_side(orders, intent.side, Some(in_flight(intent)));
            &&& quote_on(placed, intent.side) == Some(in_flight(intent))
            &&& quote_on(placed, other) == quote_on(orders, other)
        }),
{
}

/// Reconciling never invents a quote and never moves a price: a side survives
/// exactly where it was tracked and the venue shows a quote on it, and keeps its
/// price.
pub proof fn law_reconcile_keeps_prices(
    orders: RestingOrders,
    open: Seq<(QuoteId, QuoteIntent)>,
    side: Side,
)
    ensures
        quote_on(reconciled(orders, open), side) is Some <==> quote_on(orders, side) is Some
            && venue_shows(open, side),
        quote_on(reconciled(orders, open), side) is Some ==> (quote_on(
            reconciled(orders, open),
            side,
        )->0).price == (quote_on(orders, side)->0).price,
{
    lemma_last_on(open, side);
}

/// Reconciling twice with the same venue state is reconciling once.
pub proof fn law_reconcile_is_idempotent(orders: RestingOrders, open: Seq<(QuoteId, QuoteIntent)>)
    ensures
        reconciled(reconciled(orders, open), open) == reconciled(orders, open),
{
}

} // verus!
