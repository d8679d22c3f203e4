use tikr_strategy::Decimal;
use tikr_strategy::market::{
    Asset, Fill, Level, MarketEvent, MarketKind, Notional, Position, Price, QuoteId, Side,
    SignedSize, Size, Snapshot, Symbol, TimeInForce, Timestamp, VenueId,
};
use tikr_strategy::spread_scalp_old::{SpreadScalpOld, SpreadScalpOldConfig};
use tikr_strategy::strategy::{Action, Strategy, StrategyContext};

fn sym() -> Symbol {
    Symbol {
        base: Asset::new("BTC"),
        quote: Asset::new("USDT"),
        venue: VenueId::new("test"),
        kind: MarketKind::Perp,
    }
}

fn book(symbol: &Symbol, bid: i64, ask: i64, ts: u64) -> Snapshot {
    Snapshot {
        symbol: symbol.clone(),
        bids: vec![Level {
            price: Price(Decimal::from(bid)),
            size: Size(Decimal::one()),
        }],
        asks: vec![Level {
            price: Price(Decimal::from(ask)),
            size: Size(Decimal::one()),
        }],
        ts: Timestamp(ts),
    }
}

fn pos(symbol: &Symbol) -> Position {
    Position {
        symbol: symbol.clone(),
        size: SignedSize(Decimal::zero()),
        avg_entry: Price(Decimal::zero()),
        realized_pnl: Notional(Decimal::zero()),
    }
}

fn pos_with_size(symbol: &Symbol, size: Decimal) -> Position {
    Position {
        symbol: symbol.clone(),
        size: SignedSize(size),
        avg_entry: Price(Decimal::zero()),
        realized_pnl: Notional(Decimal::zero()),
    }
}

fn ctx<'a>(
    symbol: &'a Symbol,
    snapshot: &'a Snapshot,
    position: &'a Position,
) -> StrategyContext<'a> {
    StrategyContext {
        symbol,
        now: snapshot.ts,
        position,
        recent_fills: &[],
        latest_book: snapshot,
        open_quotes: &[],
        recent_liqs: &[],
    }
}

fn strategy() -> SpreadScalpOld {
    SpreadScalpOld::new(SpreadScalpOldConfig {
        notional_per_order: Decimal::from(100),
        tick_size: Decimal::from(1),
        step_size: Decimal::from(1),
        min_notional: Decimal::zero(),
        min_spread_bps: Decimal::from(5),
        requote_interval_ms: 1000,
        max_position_usdt: Decimal::zero(),
        take_profit_usdt: Decimal::zero(),
        reject_cooldown_ms: 0,
    })
}

#[test]
fn spread_scalp_old_wide_spread_quotes_at_best() {
    let symbol = sym();
    let snapshot = book(&symbol, 100, 110, 1);
    let position = pos(&symbol);
    let mut strategy = strategy();
    let actions = strategy.on_event(
        &ctx(&symbol, &snapshot, &position),
        &MarketEvent::BookUpdate {
            snapshot: snapshot.clone(),
        },
    );
    assert_eq!(actions.len(), 3);
    match (&actions[1], &actions[2]) {
        (Action::Quote(bid), Action::Quote(ask)) => {
            // 1 tick inside best bid/ask
            assert_eq!(bid.price.0, Decimal::from(101));
            assert_eq!(ask.price.0, Decimal::from(109));
        }
        _ => panic!("expected quotes"),
    }
}

#[test]
fn spread_scalp_old_narrow_spread_does_not_quote() {
    let symbol = sym();
    let snapshot = book(&symbol, 100, 100, 1);
    let position = pos(&symbol);
    let mut strategy = strategy();
    let actions = strategy.on_event(
        &ctx(&symbol, &snapshot, &position),
        &MarketEvent::BookUpdate {
            snapshot: snapshot.clone(),
        },
    );
    assert!(
        actions.is_empty(),
        "narrow spread should produce no actions, got {:?}",
        actions
    );
}

#[test]
fn spread_scalp_old_does_not_requote_when_already_at_best() {
    let symbol = sym();
    let snapshot = book(&symbol, 100, 110, 1);
    let position = pos(&symbol);
    let mut strategy = strategy();
    let first = strategy.on_event(
        &ctx(&symbol, &snapshot, &position),
        &MarketEvent::BookUpdate {
            snapshot: snapshot.clone(),
        },
    );
    assert_eq!(first.len(), 3);

    let second = strategy.on_event(
        &ctx(&symbol, &snapshot, &position),
        &MarketEvent::BookUpdate {
            snapshot: snapshot.clone(),
        },
    );
    assert!(matches!(second.as_slice(), [Action::NoOp]));
}

#[test]
fn spread_scalp_old_requotes_when_market_moves() {
    let symbol = sym();
    let first = book(&symbol, 100, 110, 1);
    let moved = book(&symbol, 102, 112, 2_000_000_000);
    let position = pos(&symbol);
    let mut strategy = strategy();
    let _ = strategy.on_event(
        &ctx(&symbol, &first, &position),
        &MarketEvent::BookUpdate {
            snapshot: first.clone(),
        },
    );
    let actions = strategy.on_event(
        &ctx(&symbol, &moved, &position),
        &MarketEvent::BookUpdate {
            snapshot: moved.clone(),
        },
    );
    assert_eq!(actions.len(), 3);
    match (&actions[1], &actions[2]) {
        (Action::Quote(bid), Action::Quote(ask)) => {
            // 1 tick inside best bid/ask
            assert_eq!(bid.price.0, Decimal::from(103));
            assert_eq!(ask.price.0, Decimal::from(111));
        }
        _ => panic!("expected quotes"),
    }
}

#[test]
fn long_inventory_sizes_ask_larger() {
    let symbol = sym();
    let snapshot = book(&symbol, 50, 60, 1);
    let position = pos_with_size(&symbol, Decimal::new(5, 1));
    let mut strategy = strategy();
    let actions = strategy.on_event(
        &ctx(&symbol, &snapshot, &position),
        &MarketEvent::BookUpdate {
            snapshot: snapshot.clone(),
        },
    );
    assert_eq!(actions.len(), 3);
    match (&actions[1], &actions[2]) {
        (Action::Quote(bid), Action::Quote(ask)) => {
            assert!(
                ask.size.0 > bid.size.0,
                "ask={:?} bid={:?}",
                ask.size.0,
                bid.size.0
            );
        }
        _ => panic!("expected quotes"),
    }
}

#[test]
fn short_inventory_sizes_bid_larger() {
    let symbol = sym();
    let snapshot = book(&symbol, 100, 110, 1);
    let position = pos_with_size(&symbol, Decimal::new(-5, 1));
    let mut strategy = strategy();
    let actions = strategy.on_event(
        &ctx(&symbol, &snapshot, &position),
        &MarketEvent::BookUpdate {
            snapshot: snapshot.clone(),
        },
    );
    assert_eq!(actions.len(), 3);
    match (&actions[1], &actions[2]) {
        (Action::Quote(bid), Action::Quote(ask)) => {
            assert!(bid.size.0 > ask.size.0);
        }
        _ => panic!("expected quotes"),
    }
}

#[test]
fn spread_scalp_old_cancel_when_spread_narrows() {
    let symbol = sym();
    let wide = book(&symbol, 100, 110, 1);
    let narrow = book(&symbol, 100, 100, 2);
    let position = pos(&symbol);
    let mut strategy = strategy();
    let _ = strategy.on_event(
        &ctx(&symbol, &wide, &position),
        &MarketEvent::BookUpdate {
            snapshot: wide.clone(),
        },
    );
    let actions = strategy.on_event(
        &ctx(&symbol, &narrow, &position),
        &MarketEvent::BookUpdate {
            snapshot: narrow.clone(),
        },
    );
    assert!(matches!(actions.as_slice(), [Action::CancelAll]));
}

#[test]
fn spread_scalp_old_fill_triggers_requote() {
    let symbol = sym();
    let snapshot = book(&symbol, 100, 110, 1);
    let position = pos(&symbol);
    let mut strategy = strategy();
    let _ = strategy.on_event(
        &ctx(&symbol, &snapshot, &position),
        &MarketEvent::BookUpdate {
            snapshot: snapshot.clone(),
        },
    );
    let actions = strategy.on_event(
        &ctx(&symbol, &snapshot, &position),
        &MarketEvent::Fill(Fill {
            quote_id: QuoteId(1),
            price: Price(Decimal::from(101)),
            size: Size(Decimal::one()),
            fee_asset: Asset::new("USDT"),
            fee_amount: Decimal::zero(),
            fee_quote: Notional(Decimal::zero()),
            side: Side::Bid,
            ts: Timestamp(2),
            is_full: true,
            trade_id: None,
        }),
    );
    // Fill replaces only the filled side; opposite side stays live.
    assert_eq!(actions.len(), 1);
    match &actions[0] {
        Action::Quote(q) => assert_eq!(q.side, Side::Bid),
        other => panic!("expected Quote, got {:?}", other),
    }
}

#[test]
fn old_side_in_cooldown_is_not_quoted() {
    let symbol = sym();
    let first = book(&symbol, 100, 110, 1);
    let position = pos(&symbol);
    let mut strategy = SpreadScalpOld::new(SpreadScalpOldConfig {
        reject_cooldown_ms: 10_000,
        ..strategy().config
    });
    let actions = strategy.on_event(
        &ctx(&symbol, &first, &position),
        &MarketEvent::BookUpdate {
            snapshot: first.clone(),
        },
    );
    let Action::Quote(bid) = &actions[1] else {
        panic!("expected a quote");
    };
    let again = strategy.on_quote_rejected(
        &ctx(&symbol, &first, &position),
        bid,
        "post-only would take (-5022)",
    );
    assert!(!again.iter().any(|a| matches!(a, Action::Quote(q) if q.side == Side::Bid)));
    assert!(again.iter().any(|a| matches!(a, Action::Quote(q) if q.side == Side::Ask)));
}

#[test]
fn old_capped_long_quotes_the_ask_only() {
    let symbol = sym();
    let snapshot = book(&symbol, 100, 110, 1);
    let position = pos_with_size(&symbol, Decimal::from(1));
    let mut strategy = SpreadScalpOld::new(SpreadScalpOldConfig {
        max_position_usdt: Decimal::from(100),
        ..strategy().config
    });
    let actions = strategy.on_event(
        &ctx(&symbol, &snapshot, &position),
        &MarketEvent::BookUpdate {
            snapshot: snapshot.clone(),
        },
    );
    assert!(!actions.iter().any(|a| matches!(a, Action::Quote(q) if q.side == Side::Bid)));
    assert!(actions.iter().any(|a| matches!(a, Action::Quote(q) if q.side == Side::Ask)));
}

#[test]
fn old_take_profit_closes_at_the_opposing_touch() {
    let symbol = sym();
    let snapshot = book(&symbol, 100, 110, 1);
    for (size, side, price) in [(2, Side::Ask, 100), (-2, Side::Bid, 110)] {
        let position = Position {
            avg_entry: Price(Decimal::from(if size > 0 { 90 } else { 120 })),
            ..pos_with_size(&symbol, Decimal::from(size))
        };
        let mut strategy = SpreadScalpOld::new(SpreadScalpOldConfig {
            take_profit_usdt: Decimal::from(30),
            ..strategy().config
        });
        let actions = strategy.on_event(
            &ctx(&symbol, &snapshot, &position),
            &MarketEvent::BookUpdate {
                snapshot: snapshot.clone(),
            },
        );
        assert_eq!(actions.len(), 2);
        assert!(matches!(actions[0], Action::CancelAll));
        let Action::Quote(close) = &actions[1] else {
            panic!("expected a quote");
        };
        assert_eq!((close.side, close.tif), (side, TimeInForce::IOC));
        assert_eq!(close.price.0, Decimal::from(price));
        assert_eq!(close.size.0, Decimal::from(2));
    }
}
