use tikr_strategy::Decimal;
use tikr_strategy::market::{
    Asset, Fill, Level, MarketEvent, MarketKind, Notional, Position, Price, QuoteId, Side,
    SignedSize, Size, Snapshot, Symbol, Timestamp, VenueId,
};
use tikr_strategy::spread_scalp_basic::{SpreadScalp, SpreadScalpConfig};
use tikr_strategy::strategy::{Action, Strategy, StrategyContext};

fn sym() -> Symbol {
    Symbol {
        base: Asset::new("BTC"),
        quote: Asset::new("USDT"),
        venue: VenueId::new("test"),
        kind: MarketKind::Perp,
    }
}

fn book(symbol: &Symbol, bid: i64, ask: i64, ts: u64) -> Snapshot {
    Snapshot {
        symbol: symbol.clone(),
        bids: vec![Level {
            price: Price(Decimal::from(bid)),
            size: Size(Decimal::one()),
        }],
        asks: vec![Level {
            price: Price(Decimal::from(ask)),
            size: Size(Decimal::one()),
        }],
        ts: Timestamp(ts),
    }
}

fn pos(symbol: &Symbol) -> Position {
    Position {
        symbol: symbol.clone(),
        size: SignedSize(Decimal::zero()),
        avg_entry: Price(Decimal::zero()),
        realized_pnl: Notional(Decimal::zero()),
    }
}

fn pos_with_size(symbol: &Symbol, size: Decimal) -> Position {
    Position {
        symbol: symbol.clone(),
        size: SignedSize(size),
        avg_entry: Price(Decimal::zero()),
        realized_pnl: Notional(Decimal::zero()),
    }
}

fn ctx<'a>(
    symbol: &'a Symbol,
    snapshot: &'a Snapshot,
    position: &'a Position,
) -> StrategyContext<'a> {
    StrategyContext {
        symbol,
        now: snapshot.ts,
        position,
        recent_fills: &[],
        latest_book: snapshot,
        open_quotes: &[],
        recent_liqs: &[],
    }
}

fn strategy() -> SpreadScalp {
    SpreadScalp::new(SpreadScalpConfig {
        notional_per_order: Decimal::from(100),
        tick_size: Decimal::from(1),
        step_size: Decimal::from(1),
        min_notional: Decimal::zero(),
        min_spread_bps: Decimal::from(5),
        requote_interval_ms: 1000,
    })
}

#[test]
fn wide_spread_quotes_one_tick_inside() {
    let symbol = sym();
    let snapshot = book(&symbol, 100, 110, 1);
    let position = pos(&symbol);
    let mut strategy = strategy();
    let actions = strategy.on_event(
        &ctx(&symbol, &snapshot, &position),
        &MarketEvent::BookUpdate {
            snapshot: snapshot.clone(),
        },
    );
    assert_eq!(actions.len(), 3);
    match (&actions[1], &actions[2]) {
        (Action::Quote(bid), Action::Quote(ask)) => {
            assert_eq!(bid.price.0, Decimal::from(101));
            assert_eq!(ask.price.0, Decimal::from(109));
        }
        _ => panic!("expected quotes"),
    }
}

#[test]
fn spread_scalp_narrow_spread_does_not_quote() {
    let symbol = sym();
    let snapshot = book(&symbol, 100, 102, 1);
    let position = pos(&symbol);
    let mut strategy = strategy();
    let actions = strategy.on_event(
        &ctx(&symbol, &snapshot, &position),
        &MarketEvent::BookUpdate {
            snapshot: snapshot.clone(),
        },
    );
    assert!(
        actions.is_empty(),
        "narrow spread should produce no actions, got {:?}",
        actions
    );
}

#[test]
fn spread_scalp_does_not_requote_when_already_at_best() {
    let symbol = sym();
    let snapshot = book(&symbol, 100, 110, 1);
    let position = pos(&symbol);
    let mut strategy = strategy();
    let first = strategy.on_event(
        &ctx(&symbol, &snapshot, &position),
        &MarketEvent::BookUpdate {
            snapshot: snapshot.clone(),
        },
    );
    assert_eq!(first.len(), 3);

    let second = strategy.on_event(
        &ctx(&symbol, &snapshot, &position),
        &MarketEvent::BookUpdate {
            snapshot: snapshot.clone(),
        },
    );
    assert!(matches!(second.as_slice(), [Action::NoOp]));
}

#[test]
fn spread_scalp_requotes_when_market_moves() {
    let symbol = sym();
    let first = book(&symbol, 100, 110, 1);
    let moved = book(&symbol, 102, 112, 2_000_000_000);
    let position = pos(&symbol);
    let mut strategy = strategy();
    let _ = strategy.on_event(
        &ctx(&symbol, &first, &position),
        &MarketEvent::BookUpdate {
            snapshot: first.clone(),
        },
    );
    let actions = strategy.on_event(
        &ctx(&symbol, &moved, &position),
        &MarketEvent::BookUpdate {
            snapshot: moved.clone(),
        },
    );
    assert_eq!(actions.len(), 3);
    match (&actions[1], &actions[2]) {
        (Action::Quote(bid), Action::Quote(ask)) => {
            assert_eq!(bid.price.0, Decimal::from(103));
            assert_eq!(ask.price.0, Decimal::from(111));
        }
        _ => panic!("expected quotes"),
    }
}

#[test]
fn long_inventory_sizes_bid_larger() {
    let symbol = sym();
    let snapshot = book(&symbol, 100, 110, 1);
    let position = pos_with_size(&symbol, Decimal::new(5, 1));
    let mut strategy = strategy();
    let actions = strategy.on_event(
        &ctx(&symbol, &snapshot, &position),
        &MarketEvent::BookUpdate {
            snapshot: snapshot.clone(),
        },
    );
    assert_eq!(actions.len(), 3);
    match (&actions[1], &actions[2]) {
        (Action::Quote(bid), Action::Quote(ask)) => {
            assert!(bid.size.0 > ask.size.0);
        }
        _ => panic!("expected quotes"),
    }
}

#[test]
fn short_inventory_sizes_ask_larger() {
    let symbol = sym();
    let snapshot = book(&symbol, 100, 110, 1);
    let position = pos_with_size(&symbol, Decimal::new(-5, 1));
    let mut strategy = strategy();
    let actions = strategy.on_event(
        &ctx(&symbol, &snapshot, &position),
        &MarketEvent::BookUpdate {
            snapshot: snapshot.clone(),
        },
    );
    assert_eq!(actions.len(), 3);
    match (&actions[1], &actions[2]) {
        (Action::Quote(bid), Action::Quote(ask)) => {
            assert!(ask.size.0 > bid.size.0);
        }
        _ => panic!("expected quotes"),
    }
}

#[test]
fn spread_scalp_cancel_when_spread_narrows() {
    let symbol = sym();
    let wide = book(&symbol, 100, 110, 1);
    let narrow = book(&symbol, 100, 102, 2);
    let position = pos(&symbol);
    let mut strategy = strategy();
    let _ = strategy.on_event(
        &ctx(&symbol, &wide, &position),
        &MarketEvent::BookUpdate {
            snapshot: wide.clone(),
        },
    );
    let actions = strategy.on_event(
        &ctx(&symbol, &narrow, &position),
        &MarketEvent::BookUpdate {
            snapshot: narrow.clone(),
        },
    );
    assert!(matches!(actions.as_slice(), [Action::CancelAll]));
}

#[test]
fn spread_scalp_fill_triggers_requote() {
    let symbol = sym();
    let snapshot = book(&symbol, 100, 110, 1);
    let position = pos(&symbol);
    let mut strategy = strategy();
    let _ = strategy.on_event(
        &ctx(&symbol, &snapshot, &position),
        &MarketEvent::BookUpdate {
            snapshot: snapshot.clone(),
        },
    );
    let actions = strategy.on_event(
        &ctx(&symbol, &snapshot, &position),
        &MarketEvent::Fill(Fill {
            quote_id: QuoteId(1),
            price: Price(Decimal::from(101)),
            size: Size(Decimal::one()),
            fee_asset: Asset::new("USDT"),
            fee_amount: Decimal::zero(),
            fee_quote: Notional(Decimal::zero()),
            side: Side::Bid,
            ts: Timestamp(2),
            is_full: true,
            trade_id: None,
        }),
    );
    assert_eq!(actions.len(), 3);
}

#[test]
fn basic_notional_update_takes_positive_values_only() {
    let symbol = sym();
    let snapshot = book(&symbol, 100, 110, 1);
    let position = pos(&symbol);
    let mut strategy = strategy();
    let c = ctx(&symbol, &snapshot, &position);
    let _ = strategy.on_notional_updated(&c, Decimal::from(7));
    let _ = strategy.on_notional_updated(&c, Decimal::from(-7));
    assert_eq!(strategy.config.notional_per_order, Decimal::from(7));
}
