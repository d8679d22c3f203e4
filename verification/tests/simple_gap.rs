use tikr_strategy::Decimal;
use tikr_strategy::market::{
    Asset, Fill, Level, MarketEvent, MarketKind, Notional, Position, Price, QuoteId, QuoteIntent,
    QuoteKind, Side, SignedSize, Size, Snapshot, Symbol, TimeInForce, Timestamp, VenueId,
};
use tikr_strategy::simple_gap::{SimpleGap, SimpleGapConfig};
use tikr_strategy::strategy::{Action, Strategy, StrategyContext};

fn sym() -> Symbol {
    Symbol {
        base: Asset::new("BTC"),
        quote: Asset::new("USDT"),
        venue: VenueId::new("test"),
        kind: MarketKind::Perp,
    }
}

fn book(symbol: &Symbol) -> Snapshot {
    Snapshot {
        symbol: symbol.clone(),
        bids: vec![Level {
            price: Price(Decimal::from(99_000)),
            size: Size(Decimal::one()),
        }],
        asks: vec![Level {
            price: Price(Decimal::from(101_000)),
            size: Size(Decimal::one()),
        }],
        ts: Timestamp(1),
    }
}

fn pos(symbol: &Symbol) -> Position {
    Position {
        symbol: symbol.clone(),
        size: SignedSize(Decimal::zero()),
        avg_entry: Price(Decimal::zero()),
        realized_pnl: Notional(Decimal::zero()),
    }
}

fn ctx<'a>(
    symbol: &'a Symbol,
    snapshot: &'a Snapshot,
    position: &'a Position,
) -> StrategyContext<'a> {
    StrategyContext {
        symbol,
        now: Timestamp(1),
        position,
        recent_fills: &[],
        latest_book: snapshot,
        open_quotes: &[],
        recent_liqs: &[],
    }
}

#[test]
fn first_book_update_places_gap_pair() {
    let symbol = sym();
    let snapshot = book(&symbol);
    let position = pos(&symbol);
    let mut strategy = SimpleGap::new(SimpleGapConfig {
        notional_per_order: Decimal::from(100),
        gap_bps: 4,
    });

    let actions = strategy.on_event(
        &ctx(&symbol, &snapshot, &position),
        &MarketEvent::BookUpdate {
            snapshot: snapshot.clone(),
        },
    );

    assert_eq!(actions.len(), 2);
    match (&actions[0], &actions[1]) {
        (Action::Quote(bid), Action::Quote(ask)) => {
            assert_eq!(bid.side, Side::Bid);
            assert_eq!(ask.side, Side::Ask);
            assert_eq!(bid.price.0, Decimal::from(99_960));
            assert_eq!(ask.price.0, Decimal::from(100_040));
        }
        _ => panic!("expected two quote actions"),
    }
}

#[test]
fn fill_places_another_pair_without_cancel() {
    let symbol = sym();
    let snapshot = book(&symbol);
    let position = pos(&symbol);
    let mut strategy = SimpleGap::new(SimpleGapConfig {
        notional_per_order: Decimal::from(100),
        gap_bps: 4,
    });

    let actions = strategy.on_event(
        &ctx(&symbol, &snapshot, &position),
        &MarketEvent::Fill(Fill {
            quote_id: QuoteId(1),
            price: Price(Decimal::from(99_960)),
            size: Size(Decimal::new(1, 3)),
            fee_asset: Asset::new("USDT"),
            fee_amount: Decimal::zero(),
            fee_quote: Notional(Decimal::zero()),
            side: Side::Bid,
            ts: Timestamp(2),
            is_full: true,
            trade_id: None,
        }),
    );

    assert!(matches!(
        actions.as_slice(),
        [Action::Quote(_), Action::Quote(_)]
    ));
}

#[test]
fn rejected_leg_retries_same_side_only() {
    let symbol = sym();
    let snapshot = book(&symbol);
    let position = pos(&symbol);
    let mut strategy = SimpleGap::new(SimpleGapConfig {
        notional_per_order: Decimal::from(100),
        gap_bps: 4,
    });
    let rejected = QuoteIntent {
        symbol: symbol.clone(),
        side: Side::Ask,
        price: Price(Decimal::from(100_040)),
        size: Size(Decimal::new(1, 3)),
        tif: TimeInForce::PostOnly,
        kind: QuoteKind::Point,
    };

    let actions = strategy.on_quote_rejected(
        &ctx(&symbol, &snapshot, &position),
        &rejected,
        "post-only would cross",
    );

    assert_eq!(actions.len(), 1);
    match &actions[0] {
        Action::Quote(q) => assert_eq!(q.side, Side::Ask),
        _ => panic!("expected quote action"),
    }
}

#[test]
fn replaying_a_session_gives_the_same_actions() {
    let symbol = sym();
    let snapshot = book(&symbol);
    let position = pos(&symbol);
    let events = [
        MarketEvent::BookUpdate {
            snapshot: snapshot.clone(),
        },
        MarketEvent::Heartbeat { ts: Timestamp(1) },
        MarketEvent::Fill(Fill {
            quote_id: QuoteId(1),
            price: Price(Decimal::from(99_960)),
            size: Size(Decimal::new(1, 3)),
            fee_asset: Asset::new("USDT"),
            fee_amount: Decimal::zero(),
            fee_quote: Notional(Decimal::zero()),
            side: Side::Bid,
            ts: Timestamp(2),
            is_full: true,
            trade_id: None,
        }),
    ];
    let replay = || {
        let mut strategy = SimpleGap::new(SimpleGapConfig {
            notional_per_order: Decimal::from(100),
            gap_bps: 4,
        });
        let all: Vec<Action> = events
            .iter()
            .flat_map(|e| strategy.on_event(&ctx(&symbol, &snapshot, &position), e))
            .collect();
        format!("{all:?}")
    };
    assert_eq!(replay(), replay());
}

#[test]
fn orders_name_the_instrument_of_the_context() {
    let symbol = sym();
    let elsewhere = Symbol {
        base: Asset::new("ETH"),
        ..sym()
    };
    let snapshot = book(&elsewhere);
    let position = pos(&elsewhere);
    let mut strategy = SimpleGap::new(SimpleGapConfig {
        notional_per_order: Decimal::from(100),
        gap_bps: 4,
    });
    let actions = strategy.on_event(
        &ctx(&symbol, &snapshot, &position),
        &MarketEvent::BookUpdate {
            snapshot: snapshot.clone(),
        },
    );
    assert_eq!(actions.len(), 2);
    for action in &actions {
        match action {
            Action::Quote(order) => assert_eq!(order.symbol, symbol),
            _ => panic!("expected a quote"),
        }
    }
}

#[test]
fn position_does_not_move_the_pair() {
    let symbol = sym();
    let snapshot = book(&symbol);
    let pair = |position: &Position| {
        let mut strategy = SimpleGap::new(SimpleGapConfig {
            notional_per_order: Decimal::from(100),
            gap_bps: 4,
        });
        let actions = strategy.on_event(
            &ctx(&symbol, &snapshot, position),
            &MarketEvent::BookUpdate {
                snapshot: snapshot.clone(),
            },
        );
        assert!(actions.iter().all(|a| matches!(a, Action::Quote(_))));
        format!("{actions:?}")
    };
    let long = Position {
        size: SignedSize(Decimal::from(5)),
        ..pos(&symbol)
    };
    assert_eq!(pair(&pos(&symbol)), pair(&long));
}

#[test]
fn unpriceable_book_is_reported() {
    let symbol = sym();
    let mut snapshot = book(&symbol);
    let largest = Decimal::from_i128_with_scale(79_228_162_514_264_337_593_543_950_335, 0);
    snapshot.bids[0].price = Price(largest);
    snapshot.asks[0].price = Price(largest);
    let position = pos(&symbol);
    let mut strategy = SimpleGap::new(SimpleGapConfig {
        notional_per_order: Decimal::from(100),
        gap_bps: 4,
    });
    let event = MarketEvent::BookUpdate {
        snapshot: snapshot.clone(),
    };
    assert!(strategy
        .try_on_event(&ctx(&symbol, &snapshot, &position), &event)
        .is_none());
}
