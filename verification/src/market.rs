//! The market-data and order vocabulary that strategies read and write.

use crate::decimal::Decimal;
use vstd::prelude::*;

verus! {

/// An instrument leg, such as `BTC`.
#[derive(Debug, PartialEq, Eq, Hash)]
pub struct Asset(pub String);

impl Asset {
    /// The asset with this ticker.
    pub fn new(ticker: &str) -> (result: Asset)
        ensures
            result.0@ == ticker@,
    {
        Asset(ticker.to_string())
    }
}

impl Clone for Asset {
    fn clone(&self) -> (result: Asset)
        ensures
            result == *self,
    {
        Asset(self.0.clone())
    }
}

/// The venue an instrument trades on.
#[derive(Debug, PartialEq, Eq, Hash)]
pub struct VenueId(pub String);

impl VenueId {
    /// The venue with this name.
    pub fn new(name: &str) -> (result: VenueId)
        ensures
            result.0@ == name@,
    {
        VenueId(name.to_string())
    }
}

impl Clone for VenueId {
    fn clone(&self) -> (result: VenueId)
        ensures
            result == *self,
    {
        VenueId(self.0.clone())
    }
}

/// Spot or perpetual market.
#[derive(Clone, Copy, Debug, PartialEq, Eq, Hash, Structural)]
pub enum MarketKind {
    /// Spot market.
    Spot,
    /// Perpetual future.
    Perp,
}

/// One tradable instrument on one venue.
#[derive(Debug, PartialEq, Eq, Hash)]
pub struct Symbol {
    /// Base leg.
    pub base: Asset,
    /// Quote leg.
    pub quote: Asset,
    /// Venue.
    pub venue: VenueId,
    /// Market kind.
    pub kind: MarketKind,
}

impl Clone for Symbol {
    fn clone(&self) -> (result: Symbol)
        ensures
            result == *self,
    {
        Symbol {
            base: self.base.clone(),
            quote: self.quote.clone(),
            venue: self.venue.clone(),
            kind: self.kind,
        }
    }
}

/// A price in quote units.
#[derive(Clone, Copy, Debug, PartialEq, Eq, PartialOrd)]
pub struct Price(pub Decimal);

/// An unsigned size in base units.
#[derive(Clone, Copy, Debug, PartialEq, Eq, PartialOrd)]
pub struct Size(pub Decimal);

/// A position size in base units, negative for a short.
#[derive(Clone, Copy, Debug, PartialEq, Eq, PartialOrd)]
pub struct SignedSize(pub Decimal);

/// An amount in quote units.
#[derive(Clone, Copy, Debug, PartialEq, Eq, PartialOrd)]
pub struct Notional(pub Decimal);

/// Nanoseconds since the epoch.
#[derive(Clone, Copy, Debug, PartialEq, Eq, PartialOrd, Ord, Hash, Structural)]
pub struct Timestamp(pub u64);

/// Which side of the book an order, fill or liquidation is on.
#[derive(Clone, Copy, Debug, PartialEq, Eq, Hash, Structural)]
pub enum Side {
    /// Buy side.
    Bid,
    /// Sell side.
    Ask,
}

/// The other side of the book.
pub open spec fn opposite(side: Side) -> Side {
    match side {
        Side::Bid => Side::Ask,
        Side::Ask => Side::Bid,
    }
}

impl Side {
    /// The other side of the book.
    pub fn opposite(self) -> (result: Side)
        ensures
            result == opposite(self),
    {
        match self {
            Side::Bid => Side::Ask,
            Side::Ask => Side::Bid,
        }
    }
}

/// Time in force of an order.
#[derive(Clone, Copy, Debug, PartialEq, Eq, Hash, Structural)]
pub enum TimeInForce {
    /// Rests until cancelled.
    GTC,
    /// Fills what it can at once and cancels the rest.
    IOC,
    /// Rejected rather than take liquidity.
    PostOnly,
}

/// Shape of a quote.
#[derive(Clone, Copy, Debug, PartialEq, Eq, Hash, Structural)]
pub enum QuoteKind {
    /// A single price point.
    Point,
}

/// One price level of a book.
#[derive(Clone, Copy, Debug)]
pub struct Level {
    /// Price of the level.
    pub price: Price,
    /// Resting size at the level.
    pub size: Size,
}

/// A book, best levels first.
#[derive(Clone, Debug)]
pub struct Snapshot {
    /// Instrument.
    pub symbol: Symbol,
    /// Bids, best first.
    pub bids: Vec<Level>,
    /// Asks, best first.
    pub asks: Vec<Level>,
    /// When the book was taken.
    pub ts: Timestamp,
}

/// The position held in one instrument.
#[derive(Clone, Debug)]
pub struct Position {
    /// Instrument.
    pub symbol: Symbol,
    /// Signed size.
    pub size: SignedSize,
    /// Average entry price.
    pub avg_entry: Price,
    /// Realized profit.
    pub realized_pnl: Notional,
}

/// Identifies a resting quote.
#[derive(Clone, Copy, Debug, PartialEq, Eq, PartialOrd, Ord, Hash, Structural)]
pub struct QuoteId(pub u128);

/// A completed (possibly partial) execution of one of our quotes.
#[derive(Clone, Debug)]
pub struct Fill {
    /// Quote that was filled.
    pub quote_id: QuoteId,
    /// Execution price.
    pub price: Price,
    /// Executed size.
    pub size: Size,
    /// Asset the fee was paid in.
    pub fee_asset: Asset,
    /// Fee in that asset.
    pub fee_amount: Decimal,
    /// Fee in quote units.
    pub fee_quote: Notional,
    /// Side of our quote.
    pub side: Side,
    /// Execution time.
    pub ts: Timestamp,
    /// Whether the quote is done.
    pub is_full: bool,
    /// Venue trade id, where the venue gives one.
    pub trade_id: Option<u64>,
}

/// A forced order seen on the venue.
#[derive(Clone, Copy, Debug)]
pub struct LiqEvent {
    /// When it printed.
    pub ts: Timestamp,
    /// Side of the forced order.
    pub side: Side,
    /// Size.
    pub qty: Size,
    /// Price.
    pub price: Price,
    /// Size x price.
    pub notional: Notional,
}

/// What the market hands a strategy.
#[derive(Clone, Debug)]
pub enum MarketEvent {
    /// The book changed.
    BookUpdate {
        /// The book as it now stands.
        snapshot: Snapshot,
    },
    /// Somebody traded.
    Trade {
        /// Instrument.
        symbol: Symbol,
        /// Trade price.
        price: Price,
        /// Trade size.
        size: Size,
        /// Aggressor side.
        side: Side,
        /// Trade time.
        ts: Timestamp,
    },
    /// One of our quotes was filled.
    Fill(Fill),
    /// Nothing happened for a while.
    Heartbeat {
        /// The current time.
        ts: Timestamp,
    },
}

/// An order a strategy wants resting.
#[derive(Debug)]
pub struct QuoteIntent {
    /// Instrument.
    pub symbol: Symbol,
    /// Side.
    pub side: Side,
    /// Limit price.
    pub price: Price,
    /// Size.
    pub size: Size,
    /// Time in force.
    pub tif: TimeInForce,
    /// Shape.
    pub kind: QuoteKind,
}

impl Clone for QuoteIntent {
    fn clone(&self) -> (result: QuoteIntent)
        ensures
            result == *self,
    {
        QuoteIntent {
            symbol: self.symbol.clone(),
            side: self.side,
            price: self.price,
            size: self.size,
            tif: self.tif,
            kind: self.kind,
        }
    }
}

/// The single-point order with these terms.
pub open spec fn point_order(
    symbol: Symbol,
    side: Side,
    price: Decimal,
    size: Decimal,
    tif: TimeInForce,
) -> QuoteIntent {
    QuoteIntent {
        symbol,
        side,
        price: Price(price),
        size: Size(size),
        tif,
        kind: QuoteKind::Point,
    }
}

/// The post-only order with these terms.
pub open spec fn maker_order(
    symbol: Symbol,
    side: Side,
    price: Decimal,
    size: Decimal,
) -> QuoteIntent {
    point_order(symbol, side, price, size, TimeInForce::PostOnly)
}

/// The immediate-or-cancel order with these terms.
pub open spec fn taker_order(
    symbol: Symbol,
    side: Side,
    price: Decimal,
    size: Decimal,
) -> QuoteIntent {
    point_order(symbol, side, price, size, TimeInForce::IOC)
}

/// Orders that rest never take, orders that take never rest, and both keep what was asked for.
pub proof fn law_order_terms(symbol: Symbol, side: Side, price: Decimal, size: Decimal)
    ensures
        maker_order(symbol, side, price, size).tif is PostOnly,
        taker_order(symbol, side, price, size).tif is IOC,
        maker_order(symbol, side, price, size).side == side,
        taker_order(symbol, side, price, size).side == side,
        maker_order(symbol, side, price, size).price.0 == price,
        taker_order(symbol, side, price, size).price.0 == price,
        maker_order(symbol, side, price, size).size.0 == size,
        taker_order(symbol, side, price, size).size.0 == size,
        maker_order(symbol, side, price, size).symbol == symbol,
        taker_order(symbol, side, price, size).symbol == symbol,
{
}

/// The opposite of a side is the other one, and its opposite is the side.
pub proof fn law_sides_are_opposite(side: Side)
    ensures
        opposite(side) != side,
        opposite(opposite(side)) == side,
{
}

} // verus!
