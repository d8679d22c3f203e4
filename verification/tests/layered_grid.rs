use tikr_strategy::Decimal;
use tikr_strategy::layered_grid::{LayeredGrid, LayeredGridConfig};
use tikr_strategy::market::{
    Asset, Fill, Level, MarketEvent, MarketKind, Notional, Position, Price, QuoteId, QuoteIntent,
    Side, SignedSize, Size, Snapshot, Symbol, Timestamp, VenueId,
};
use tikr_strategy::strategy::{Action, Strategy, StrategyContext};

fn plus(a: Decimal, b: Decimal) -> Decimal {
    a.checked_add(b).unwrap()
}

fn minus(a: Decimal, b: Decimal) -> Decimal {
    a.checked_sub(b).unwrap()
}

fn times(a: Decimal, b: Decimal) -> Decimal {
    a.checked_mul(b).unwrap()
}

fn over(a: Decimal, b: Decimal) -> Decimal {
    a.checked_div(b).unwrap()
}

fn sym() -> Symbol {
    Symbol {
        base: Asset::new("BTC"),
        quote: Asset::new("USDT"),
        venue: VenueId::new("test"),
        kind: MarketKind::Perp,
    }
}

fn flat_pos(s: &Symbol) -> Position {
    Position {
        symbol: s.clone(),
        size: SignedSize(Decimal::zero()),
        avg_entry: Price(Decimal::zero()),
        realized_pnl: Notional(Decimal::zero()),
    }
}

fn book(s: &Symbol, bid: i64, ask: i64) -> Snapshot {
    Snapshot {
        symbol: s.clone(),
        bids: vec![Level {
            price: Price(Decimal::from(bid)),
            size: Size(Decimal::from(1)),
        }],
        asks: vec![Level {
            price: Price(Decimal::from(ask)),
            size: Size(Decimal::from(1)),
        }],
        ts: Timestamp(0),
    }
}

fn cfg() -> LayeredGridConfig {
    LayeredGridConfig {
        notional_per_order: Decimal::from(100),
        levels_per_side: 3,
        inner_bps: 6,
    }
}

fn ctx<'a>(s: &'a Symbol, p: &'a Position, snap: &'a Snapshot) -> StrategyContext<'a> {
    StrategyContext {
        symbol: s,
        now: snap.ts,
        position: p,
        recent_fills: &[],
        latest_book: snap,
        open_quotes: &[],
        recent_liqs: &[],
    }
}

#[test]
fn cold_start_places_six_orders() {
    let s = sym();
    let snap = book(&s, 100, 101); // mid = 100.5
    let p = flat_pos(&s);
    let c = ctx(&s, &p, &snap);
    let mut strat = LayeredGrid::new(cfg());
    let actions = strat.on_event(
        &c,
        &MarketEvent::BookUpdate {
            snapshot: snap.clone(),
        },
    );
    // Cold start: no prior open quotes → 6 Quote actions (3 per side),
    // no Cancels (Quote-first ordering; no naked-book gap).
    assert_eq!(actions.len(), 6);
    for a in &actions {
        assert!(matches!(a, Action::Quote(_)));
    }
    let quotes: Vec<&QuoteIntent> = actions
        .iter()
        .filter_map(|a| match a {
            Action::Quote(q) => Some(q),
            _ => None,
        })
        .collect();
    assert_eq!(quotes.len(), 6);
    let buys = quotes.iter().filter(|q| q.side == Side::Bid).count();
    let asks = quotes.iter().filter(|q| q.side == Side::Ask).count();
    assert_eq!(buys, 3);
    assert_eq!(asks, 3);
}

#[test]
fn second_bookupdate_emits_nothing() {
    let s = sym();
    let snap = book(&s, 100, 101);
    let p = flat_pos(&s);
    let c = ctx(&s, &p, &snap);
    let mut strat = LayeredGrid::new(cfg());
    let _ = strat.on_event(
        &c,
        &MarketEvent::BookUpdate {
            snapshot: snap.clone(),
        },
    );
    // Second event should be no-op (grid is purely fill-driven after cold start).
    let actions = strat.on_event(
        &c,
        &MarketEvent::BookUpdate {
            snapshot: snap.clone(),
        },
    );
    assert!(actions.is_empty());
}

#[test]
fn fill_rolls_ladder_one_step() {
    let s = sym();
    let snap = book(&s, 1000, 1001);
    let p = flat_pos(&s);
    let mut strat = LayeredGrid::new(cfg());
    let cold_actions = strat.on_event(
        &ctx(&s, &p, &snap),
        &MarketEvent::BookUpdate {
            snapshot: snap.clone(),
        },
    );
    // Build a fake `open_quotes` from the cold-start placements so
    // the diff-Cancel path has QuoteIds to resolve.
    let open_quotes: Vec<(QuoteId, QuoteIntent)> = cold_actions
        .iter()
        .enumerate()
        .filter_map(|(i, a)| match a {
            Action::Quote(q) => Some((QuoteId(i as u128), q.clone())),
            _ => None,
        })
        .collect();
    let fill_ctx = StrategyContext {
        symbol: &s,
        now: Timestamp(1000),
        position: &p,
        recent_fills: &[],
        latest_book: &snap,
        open_quotes: &open_quotes,
        recent_liqs: &[],
    };

    let mid = Decimal::new(10005, 1);
    let inner_bp = over(Decimal::from(6), Decimal::from(10_000));
    let buy_price = Price(times(mid, minus(Decimal::one(), inner_bp)));
    let fill = Fill {
        quote_id: QuoteId(100),
        price: buy_price,
        size: Size(Decimal::new(1, 4)),
        fee_asset: s.quote.clone(),
        fee_amount: Decimal::zero(),
        fee_quote: Notional(Decimal::zero()),
        side: Side::Bid,
        ts: Timestamp(1000),
        is_full: true,
        trade_id: None,
    };
    let actions = strat.on_event(&fill_ctx, &MarketEvent::Fill(fill));
    // Quote-first ordering: Quote(TP) + Quote(extension) + Cancel(outermost_opp) = 3
    assert_eq!(actions.len(), 3);
    match &actions[0] {
        Action::Quote(q) => {
            assert_eq!(q.side, Side::Ask);
            // TP distance == inner_bps (collapsed-spacing model).
            assert_eq!(q.price.0, times(buy_price.0, plus(Decimal::one(), inner_bp)));
        }
        _ => panic!("expected TP Quote on Ask"),
    }
    match &actions[1] {
        Action::Quote(q) => {
            assert_eq!(q.side, Side::Bid);
            // Extension == outermost surviving Bid × (1 − inner_bps).
            // Outermost = level 2 = mid × (1 − 18bps).
            let outer = times(
                mid,
                minus(Decimal::one(), over(Decimal::from(18), Decimal::from(10_000))),
            );
            assert_eq!(q.price.0, times(outer, minus(Decimal::one(), inner_bp)));
        }
        _ => panic!("expected extension Quote on Bid"),
    }
    assert!(matches!(actions[2], Action::Cancel(_)));
}

#[test]
fn fill_cancels_the_outermost_order_opposite() {
    let s = sym();
    let snap = book(&s, 1000, 1001);
    let p = flat_pos(&s);
    let mut strat = LayeredGrid::new(cfg());
    let placed = strat.on_event(
        &ctx(&s, &p, &snap),
        &MarketEvent::BookUpdate {
            snapshot: snap.clone(),
        },
    );
    let open_quotes: Vec<(QuoteId, QuoteIntent)> = placed
        .iter()
        .enumerate()
        .filter_map(|(i, a)| match a {
            Action::Quote(q) => Some((QuoteId(i as u128), q.clone())),
            _ => None,
        })
        .collect();
    for side in [Side::Bid, Side::Ask] {
        let mut strat = LayeredGrid::new(cfg());
        let _ = strat.on_event(
            &ctx(&s, &p, &snap),
            &MarketEvent::BookUpdate {
                snapshot: snap.clone(),
            },
        );
        let filled = open_quotes.iter().find(|q| q.1.side == side).unwrap();
        let opposite: Vec<&(QuoteId, QuoteIntent)> =
            open_quotes.iter().filter(|q| q.1.side != side).collect();
        let outermost = opposite
            .iter()
            .find(|q| {
                opposite.iter().all(|o| match side {
                    Side::Bid => o.1.price.0 <= q.1.price.0,
                    Side::Ask => o.1.price.0 >= q.1.price.0,
                })
            })
            .unwrap();
        let fill_ctx = StrategyContext {
            open_quotes: &open_quotes,
            ..ctx(&s, &p, &snap)
        };
        let actions = strat.on_event(
            &fill_ctx,
            &MarketEvent::Fill(Fill {
                quote_id: filled.0,
                price: filled.1.price,
                size: filled.1.size,
                fee_asset: s.quote.clone(),
                fee_amount: Decimal::zero(),
                fee_quote: Notional(Decimal::zero()),
                side,
                ts: Timestamp(1000),
                is_full: true,
                trade_id: None,
            }),
        );
        assert_eq!(actions.len(), 3);
        assert!(matches!(actions[2], Action::Cancel(id) if id == outermost.0));
    }
}

#[test]
fn partial_fill_changes_nothing() {
    let s = sym();
    let snap = book(&s, 1000, 1001);
    let p = flat_pos(&s);
    let mut strat = LayeredGrid::new(cfg());
    let _ = strat.on_event(
        &ctx(&s, &p, &snap),
        &MarketEvent::BookUpdate {
            snapshot: snap.clone(),
        },
    );
    let before = strat.orders.clone();
    let partial = Fill {
        quote_id: QuoteId(1),
        price: strat.orders[0].1,
        size: Size(Decimal::new(1, 4)),
        fee_asset: s.quote.clone(),
        fee_amount: Decimal::zero(),
        fee_quote: Notional(Decimal::zero()),
        side: Side::Bid,
        ts: Timestamp(1),
        is_full: false,
        trade_id: None,
    };
    assert!(strat
        .on_event(&ctx(&s, &p, &snap), &MarketEvent::Fill(partial))
        .is_empty());
    assert_eq!(strat.orders, before);
}

#[test]
fn ladder_keeps_its_number_of_orders_through_fills() {
    let s = sym();
    let snap = book(&s, 1000, 1001);
    let p = flat_pos(&s);
    let mut strat = LayeredGrid::new(cfg());
    let _ = strat.on_event(
        &ctx(&s, &p, &snap),
        &MarketEvent::BookUpdate {
            snapshot: snap.clone(),
        },
    );
    for side in [Side::Bid, Side::Bid, Side::Ask] {
        let price = strat
            .orders
            .iter()
            .filter(|o| o.0 == side)
            .map(|o| o.1)
            .next()
            .unwrap();
        let fill = Fill {
            quote_id: QuoteId(1),
            price,
            size: Size(Decimal::new(1, 4)),
            fee_asset: s.quote.clone(),
            fee_amount: Decimal::zero(),
            fee_quote: Notional(Decimal::zero()),
            side,
            ts: Timestamp(1),
            is_full: true,
            trade_id: None,
        };
        let actions = strat.on_event(&ctx(&s, &p, &snap), &MarketEvent::Fill(fill));
        // The dropped order is not known to rest, so the ladder is quoted anew.
        assert!(matches!(actions[0], Action::CancelAll));
        assert_eq!(actions.len(), 7);
        for side in [Side::Bid, Side::Ask] {
            assert_eq!(strat.orders.iter().filter(|o| o.0 == side).count(), 3);
        }
    }
}
