use tikr_strategy::Decimal;
use tikr_strategy::ladder_reentry::{LadderReentry, LadderReentryConfig};
use tikr_strategy::market::{
    Asset, Fill, Level, MarketEvent, MarketKind, Notional, Position, Price, QuoteId, QuoteIntent,
    QuoteKind, Side, SignedSize, Size, Snapshot, Symbol, TimeInForce, Timestamp, VenueId,
};
use tikr_strategy::strategy::{Action, Strategy, StrategyContext};

fn sym() -> Symbol {
    Symbol {
        base: Asset::new("BTC"),
        quote: Asset::new("USDT"),
        venue: VenueId::new("test"),
        kind: MarketKind::Perp,
    }
}

fn book(symbol: &Symbol) -> Snapshot {
    Snapshot {
        symbol: symbol.clone(),
        bids: vec![Level {
            price: Price(Decimal::from(99_000)),
            size: Size(Decimal::one()),
        }],
        asks: vec![Level {
            price: Price(Decimal::from(101_000)),
            size: Size(Decimal::one()),
        }],
        ts: Timestamp(1),
    }
}

fn pos(symbol: &Symbol) -> Position {
    pos_with_size(symbol, Decimal::zero())
}

fn pos_with_size(symbol: &Symbol, size: Decimal) -> Position {
    Position {
        symbol: symbol.clone(),
        size: SignedSize(size),
        avg_entry: Price(Decimal::zero()),
        realized_pnl: Notional(Decimal::zero()),
    }
}

fn ctx<'a>(
    symbol: &'a Symbol,
    snapshot: &'a Snapshot,
    position: &'a Position,
    open_quotes: &'a [(QuoteId, QuoteIntent)],
) -> StrategyContext<'a> {
    StrategyContext {
        symbol,
        now: Timestamp(1),
        position,
        recent_fills: &[],
        latest_book: snapshot,
        open_quotes,
        recent_liqs: &[],
    }
}

fn cfg() -> LadderReentryConfig {
    LadderReentryConfig {
        notional_per_order: Decimal::from(100),
        levels_per_side: 10,
        inner_bps: 5,
        step_bps: 1,
        reentry_bps: 5,
        continuation_bps: 11,
    }
}

#[test]
fn first_book_update_places_twenty_level_ladder() {
    let symbol = sym();
    let snapshot = book(&symbol);
    let position = pos(&symbol);
    let mut strategy = LadderReentry::new(cfg());

    let actions = strategy.on_event(
        &ctx(&symbol, &snapshot, &position, &[]),
        &MarketEvent::BookUpdate {
            snapshot: snapshot.clone(),
        },
    );

    assert_eq!(actions.len(), 20);
    match (&actions[0], &actions[1], &actions[18], &actions[19]) {
        (Action::Quote(b0), Action::Quote(a0), Action::Quote(b9), Action::Quote(a9)) => {
            assert_eq!(b0.side, Side::Bid);
            assert_eq!(a0.side, Side::Ask);
            assert_eq!(b0.price.0, Decimal::from(99_950));
            assert_eq!(a0.price.0, Decimal::from(100_050));
            assert_eq!(b9.price.0, Decimal::from(99_860));
            assert_eq!(a9.price.0, Decimal::from(100_140));
        }
        _ => panic!("expected quote actions"),
    }
}

#[test]
fn sell_fill_opens_sell_continuation_and_buy_reentry() {
    let symbol = sym();
    let snapshot = book(&symbol);
    let position = pos(&symbol);
    let mut strategy = LadderReentry::new(cfg());
    let fill_price = Decimal::from(100_000);

    let actions = strategy.on_event(
        &ctx(&symbol, &snapshot, &position, &[]),
        &MarketEvent::Fill(Fill {
            quote_id: QuoteId(1),
            price: Price(fill_price),
            size: Size(Decimal::new(1, 3)),
            fee_asset: Asset::new("USDT"),
            fee_amount: Decimal::zero(),
            fee_quote: Notional(Decimal::zero()),
            side: Side::Ask,
            ts: Timestamp(2),
            is_full: true,
            trade_id: None,
        }),
    );

    assert_eq!(actions.len(), 2);
    match (&actions[0], &actions[1]) {
        (Action::Quote(sell), Action::Quote(buy)) => {
            assert_eq!(sell.side, Side::Ask);
            assert_eq!(sell.price.0, Decimal::from(100_110));
            assert_eq!(buy.side, Side::Bid);
            assert_eq!(buy.price.0, Decimal::from(99_950));
        }
        _ => panic!("expected quote actions"),
    }
}

#[test]
fn buy_fill_opens_buy_continuation_and_sell_reentry() {
    let symbol = sym();
    let snapshot = book(&symbol);
    let position = pos(&symbol);
    let mut strategy = LadderReentry::new(cfg());
    let fill_price = Decimal::from(100_000);

    let actions = strategy.on_event(
        &ctx(&symbol, &snapshot, &position, &[]),
        &MarketEvent::Fill(Fill {
            quote_id: QuoteId(2),
            price: Price(fill_price),
            size: Size(Decimal::new(1, 3)),
            fee_asset: Asset::new("USDT"),
            fee_amount: Decimal::zero(),
            fee_quote: Notional(Decimal::zero()),
            side: Side::Bid,
            ts: Timestamp(2),
            is_full: true,
            trade_id: None,
        }),
    );

    assert_eq!(actions.len(), 2);
    match (&actions[0], &actions[1]) {
        (Action::Quote(buy), Action::Quote(sell)) => {
            assert_eq!(buy.side, Side::Bid);
            assert_eq!(buy.price.0, Decimal::from(99_890));
            assert_eq!(sell.side, Side::Ask);
            assert_eq!(sell.price.0, Decimal::from(100_050));
        }
        _ => panic!("expected quote actions"),
    }
}

#[test]
fn buy_fill_cancels_furthest_sell_after_new_pair() {
    let symbol = sym();
    let snapshot = book(&symbol);
    let position = pos(&symbol);
    let mut strategy = LadderReentry::new(cfg());
    let near = QuoteId(3);
    let far = QuoteId(4);
    let bid = QuoteId(5);
    let open_quotes = vec![
        (
            near,
            QuoteIntent {
                symbol: symbol.clone(),
                side: Side::Ask,
                price: Price(Decimal::from(100_100)),
                size: Size(Decimal::one()),
                tif: TimeInForce::PostOnly,
                kind: QuoteKind::Point,
            },
        ),
        (
            far,
            QuoteIntent {
                symbol: symbol.clone(),
                side: Side::Ask,
                price: Price(Decimal::from(100_300)),
                size: Size(Decimal::one()),
                tif: TimeInForce::PostOnly,
                kind: QuoteKind::Point,
            },
        ),
        (
            bid,
            QuoteIntent {
                symbol: symbol.clone(),
                side: Side::Bid,
                price: Price(Decimal::from(99_900)),
                size: Size(Decimal::one()),
                tif: TimeInForce::PostOnly,
                kind: QuoteKind::Point,
            },
        ),
    ];

    let actions = strategy.on_event(
        &ctx(&symbol, &snapshot, &position, &open_quotes),
        &MarketEvent::Fill(Fill {
            quote_id: QuoteId(6),
            price: Price(Decimal::from(100_000)),
            size: Size(Decimal::new(1, 3)),
            fee_asset: Asset::new("USDT"),
            fee_amount: Decimal::zero(),
            fee_quote: Notional(Decimal::zero()),
            side: Side::Bid,
            ts: Timestamp(2),
            is_full: true,
            trade_id: None,
        }),
    );

    assert_eq!(actions.len(), 3);
    assert!(matches!(actions[0], Action::Quote(_)));
    assert!(matches!(actions[1], Action::Quote(_)));
    match actions[2] {
        Action::Cancel(id) => assert_eq!(id, far),
        _ => panic!("expected furthest sell cancel"),
    }
}

#[test]
fn sell_fill_cancels_furthest_buy_after_new_pair() {
    let symbol = sym();
    let snapshot = book(&symbol);
    let position = pos(&symbol);
    let mut strategy = LadderReentry::new(cfg());
    let near = QuoteId(7);
    let far = QuoteId(8);
    let ask = QuoteId(9);
    let open_quotes = vec![
        (
            near,
            QuoteIntent {
                symbol: symbol.clone(),
                side: Side::Bid,
                price: Price(Decimal::from(99_900)),
                size: Size(Decimal::one()),
                tif: TimeInForce::PostOnly,
                kind: QuoteKind::Point,
            },
        ),
        (
            far,
            QuoteIntent {
                symbol: symbol.clone(),
                side: Side::Bid,
                price: Price(Decimal::from(99_700)),
                size: Size(Decimal::one()),
                tif: TimeInForce::PostOnly,
                kind: QuoteKind::Point,
            },
        ),
        (
            ask,
            QuoteIntent {
                symbol: symbol.clone(),
                side: Side::Ask,
                price: Price(Decimal::from(100_100)),
                size: Size(Decimal::one()),
                tif: TimeInForce::PostOnly,
                kind: QuoteKind::Point,
            },
        ),
    ];

    let actions = strategy.on_event(
        &ctx(&symbol, &snapshot, &position, &open_quotes),
        &MarketEvent::Fill(Fill {
            quote_id: QuoteId(10),
            price: Price(Decimal::from(100_000)),
            size: Size(Decimal::new(1, 3)),
            fee_asset: Asset::new("USDT"),
            fee_amount: Decimal::zero(),
            fee_quote: Notional(Decimal::zero()),
            side: Side::Ask,
            ts: Timestamp(2),
            is_full: true,
            trade_id: None,
        }),
    );

    assert_eq!(actions.len(), 3);
    assert!(matches!(actions[0], Action::Quote(_)));
    assert!(matches!(actions[1], Action::Quote(_)));
    match actions[2] {
        Action::Cancel(id) => assert_eq!(id, far),
        _ => panic!("expected furthest buy cancel"),
    }
}

#[test]
fn margin_reject_long_places_position_reducing_sell() {
    let symbol = sym();
    let snapshot = book(&symbol);
    let position = pos_with_size(&symbol, Decimal::new(2, 3));
    let mut strategy = LadderReentry::new(cfg());
    let rejected = QuoteIntent {
        symbol: symbol.clone(),
        side: Side::Bid,
        price: Price(Decimal::from(99_950)),
        size: Size(Decimal::new(1, 3)),
        tif: TimeInForce::PostOnly,
        kind: QuoteKind::Point,
    };

    let actions = strategy.on_quote_rejected(
        &ctx(&symbol, &snapshot, &position, &[]),
        &rejected,
        "binance error (code -2019): Margin is insufficient.",
    );

    match &actions[0] {
        Action::Quote(q) => {
            assert_eq!(q.side, Side::Ask);
            assert_eq!(q.price.0, Decimal::from(101_000));
            assert!(q.size.0 <= position.size.0);
        }
        _ => panic!("expected rebalance quote"),
    }
}

#[test]
fn margin_reject_short_places_position_reducing_buy() {
    let symbol = sym();
    let snapshot = book(&symbol);
    let position = pos_with_size(&symbol, Decimal::new(-2, 3));
    let mut strategy = LadderReentry::new(cfg());
    let rejected = QuoteIntent {
        symbol: symbol.clone(),
        side: Side::Ask,
        price: Price(Decimal::from(100_050)),
        size: Size(Decimal::new(1, 3)),
        tif: TimeInForce::PostOnly,
        kind: QuoteKind::Point,
    };

    let actions = strategy.on_quote_rejected(
        &ctx(&symbol, &snapshot, &position, &[]),
        &rejected,
        "margin insufficient (paper -2019)",
    );

    match &actions[0] {
        Action::Quote(q) => {
            assert_eq!(q.side, Side::Bid);
            assert_eq!(q.price.0, Decimal::from(99_000));
            assert!(q.size.0 <= position.size.0.abs());
        }
        _ => panic!("expected rebalance quote"),
    }
}

#[test]
fn other_rejections_call_for_nothing() {
    let symbol = sym();
    let snapshot = book(&symbol);
    let position = pos_with_size(&symbol, Decimal::new(2, 3));
    let mut strategy = LadderReentry::new(cfg());
    let rejected = QuoteIntent {
        symbol: symbol.clone(),
        side: Side::Bid,
        price: Price(Decimal::from(99_950)),
        size: Size(Decimal::new(1, 3)),
        tif: TimeInForce::PostOnly,
        kind: QuoteKind::Point,
    };
    let reduces = |strategy: &mut LadderReentry, reason: &str| {
        strategy
            .on_quote_rejected(&ctx(&symbol, &snapshot, &position, &[]), &rejected, reason)
            .iter()
            .any(|a| matches!(a, Action::Quote(q) if q.side == Side::Ask))
    };
    assert!(!reduces(&mut strategy, "post-only would cross"));
    assert!(reduces(&mut strategy, "margin insufficient"));
}
