use tikr_strategy::Decimal;
use tikr_strategy::joker::{Joker, JokerConfig};
use tikr_strategy::market::{
    Asset, Level, MarketEvent, MarketKind, Notional, Position, Price, QuoteId, QuoteIntent,
    QuoteKind, Side, SignedSize, Size, Snapshot, Symbol, TimeInForce, Timestamp, VenueId,
};
use tikr_strategy::strategy::{Action, Strategy, StrategyContext};

fn sym() -> Symbol {
    Symbol {
        base: Asset::new("BTC"),
        quote: Asset::new("USDC"),
        venue: VenueId::new("test"),
        kind: MarketKind::Perp,
    }
}

fn book(bid: Decimal, ask: Decimal) -> Snapshot {
    Snapshot {
        symbol: sym(),
        bids: vec![Level {
            price: Price(bid),
            size: Size(Decimal::from(1)),
        }],
        asks: vec![Level {
            price: Price(ask),
            size: Size(Decimal::from(1)),
        }],
        ts: Timestamp(1),
    }
}

fn pos() -> Position {
    Position {
        symbol: sym(),
        size: SignedSize(Decimal::zero()),
        avg_entry: Price(Decimal::zero()),
        realized_pnl: Notional(Decimal::zero()),
    }
}

fn cfg() -> JokerConfig {
    JokerConfig {
        notional_per_order: Decimal::from(100),
        tick_size: Decimal::new(1, 1), // 0.1
        step_size: Decimal::new(1, 3), // 0.001
        min_notional: Decimal::from(5),
        max_order_age_secs: 0,
        order_tick_offset: 0,
        order_tick_tolerance: 0,
    }
}

fn ctx<'a>(
    symbol: &'a Symbol,
    snap: &'a Snapshot,
    p: &'a Position,
    open: &'a [(QuoteId, QuoteIntent)],
) -> StrategyContext<'a> {
    StrategyContext {
        symbol,
        now: Timestamp(1),
        position: p,
        recent_fills: &[],
        latest_book: snap,
        open_quotes: open,
        recent_liqs: &[],
    }
}

#[test]
fn first_event_emits_both_touches() {
    let mut s = Joker::new(cfg());
    let snap = book(Decimal::from(100), Decimal::new(1001, 1));
    let p = pos();
    let symbol = sym();
    let c = ctx(&symbol, &snap, &p, &[]);
    let actions = s.on_event(
        &c,
        &MarketEvent::BookUpdate {
            snapshot: snap.clone(),
        },
    );
    assert_eq!(actions.len(), 2);
}

#[test]
fn skips_emit_when_already_at_touch() {
    let mut s = Joker::new(cfg());
    let snap = book(Decimal::from(100), Decimal::new(1001, 1));
    let p = pos();
    let symbol = sym();
    let open = vec![(
        QuoteId(1),
        QuoteIntent {
            symbol: symbol.clone(),
            side: Side::Bid,
            price: Price(Decimal::from(100)),
            size: Size(Decimal::one()),
            tif: TimeInForce::PostOnly,
            kind: QuoteKind::Point,
        },
    )];
    let c = ctx(&symbol, &snap, &p, &open);
    let actions = s.on_event(
        &c,
        &MarketEvent::BookUpdate {
            snapshot: snap.clone(),
        },
    );
    // Only the ASK side should emit; BID already covered.
    assert_eq!(actions.len(), 1);
    match &actions[0] {
        Action::Quote(q) => assert_eq!(q.side, Side::Ask),
        _ => panic!("expected Quote"),
    }
}

/// Regression: dedupe must cover in-flight placements the runner
/// hasn't reconciled into `open_quotes` yet — checking `open_quotes`
/// alone let the same touch get re-emitted every event.
#[test]
fn in_flight_placement_suppresses_duplicate_emit_before_open_quotes_catch_up() {
    let mut s = Joker::new(cfg());
    let snap = book(Decimal::from(100), Decimal::new(1001, 1));
    let p = pos();
    let symbol = sym();

    let c0 = StrategyContext {
        symbol: &symbol,
        now: Timestamp(1_000_000_000),
        position: &p,
        recent_fills: &[],
        latest_book: &snap,
        open_quotes: &[],
        recent_liqs: &[],
    };
    let first = s.on_event(
        &c0,
        &MarketEvent::BookUpdate {
            snapshot: snap.clone(),
        },
    );
    assert_eq!(first.len(), 2, "first event emits both touches");

    // Same book, `open_quotes` still empty (runner hasn't reconciled
    // the in-flight placements yet), 1s later — well inside the
    // grace window. Before the fix this re-emitted duplicates.
    let c1 = StrategyContext {
        symbol: &symbol,
        now: Timestamp(2_000_000_000),
        position: &p,
        recent_fills: &[],
        latest_book: &snap,
        open_quotes: &[],
        recent_liqs: &[],
    };
    let second = s.on_event(
        &c1,
        &MarketEvent::BookUpdate {
            snapshot: snap.clone(),
        },
    );
    assert!(
        second.is_empty(),
        "in-flight grace must suppress duplicate emit, got {second:?}"
    );

    // Well past the grace window, still no open_quotes (order truly
    // lost — rejected, dropped) → safety-valve retry re-emits.
    let c2 = StrategyContext {
        symbol: &symbol,
        now: Timestamp(1_000_000_000 + 11_000_000_000),
        position: &p,
        recent_fills: &[],
        latest_book: &snap,
        open_quotes: &[],
        recent_liqs: &[],
    };
    let third = s.on_event(
        &c2,
        &MarketEvent::BookUpdate {
            snapshot: snap.clone(),
        },
    );
    assert_eq!(
        third.len(),
        2,
        "past the grace window, emit must retry, got {third:?}"
    );
}

/// Regression: the age sweep's `placement_ts.retain` used to drop
/// entries for just-emitted, not-yet-reconciled orders unconditionally
/// — permanently exempting them from the age sweep once they DID land
/// in `open_quotes`, since the sweep only acts on quotes with a
/// `placement_ts` record.
#[test]
fn placement_ts_survives_in_flight_gap_so_age_sweep_still_reaps_it() {
    let mut c = cfg();
    c.max_order_age_secs = 5;
    let mut s = Joker::new(c);
    let snap = book(Decimal::from(100), Decimal::new(1001, 1));
    let p = pos();
    let symbol = sym();

    let c0 = StrategyContext {
        symbol: &symbol,
        now: Timestamp(0),
        position: &p,
        recent_fills: &[],
        latest_book: &snap,
        open_quotes: &[],
        recent_liqs: &[],
    };
    let first = s.on_event(
        &c0,
        &MarketEvent::BookUpdate {
            snapshot: snap.clone(),
        },
    );
    assert_eq!(first.len(), 2, "first event emits both touches");

    // 1s later, still not reconciled into open_quotes (runner lag).
    // Before the fix, this call's retain() unconditionally wiped the
    // placement_ts entries since open_keys was still empty.
    let c1 = StrategyContext {
        symbol: &symbol,
        now: Timestamp(1_000_000_000),
        position: &p,
        recent_fills: &[],
        latest_book: &snap,
        open_quotes: &[],
        recent_liqs: &[],
    };
    let _ = s.on_event(
        &c1,
        &MarketEvent::BookUpdate {
            snapshot: snap.clone(),
        },
    );

    // 6s after the ORIGINAL emit (past max_order_age_secs=5), the
    // orders finally show up in open_quotes at their emitted prices.
    // The age sweep must reap them using the ORIGINAL emit
    // timestamp — which only survives if placement_ts wasn't wiped
    // at t=1s.
    let open = vec![
        (
            QuoteId(2),
            QuoteIntent {
                symbol: symbol.clone(),
                side: Side::Bid,
                price: Price(Decimal::from(100)),
                size: Size(Decimal::one()),
                tif: TimeInForce::PostOnly,
                kind: QuoteKind::Point,
            },
        ),
        (
            QuoteId(3),
            QuoteIntent {
                symbol: symbol.clone(),
                side: Side::Ask,
                price: Price(Decimal::new(1001, 1)),
                size: Size(Decimal::one()),
                tif: TimeInForce::PostOnly,
                kind: QuoteKind::Point,
            },
        ),
    ];
    let c2 = StrategyContext {
        symbol: &symbol,
        now: Timestamp(6_000_000_000),
        position: &p,
        recent_fills: &[],
        latest_book: &snap,
        open_quotes: &open,
        recent_liqs: &[],
    };
    let third = s.on_event(
        &c2,
        &MarketEvent::BookUpdate {
            snapshot: snap.clone(),
        },
    );
    let cancels = third
        .iter()
        .filter(|a| matches!(a, Action::Cancel(_)))
        .count();
    assert_eq!(
        cancels, 2,
        "age sweep must reap both orders using the original emit ts, got {third:?}"
    );
}

#[test]
fn offset_moves_the_targets_away_from_the_touch() {
    let symbol = sym();
    let snap = book(Decimal::from(100), Decimal::new(1001, 1));
    let p = pos();
    let c = ctx(&symbol, &snap, &p, &[]);
    let away = JokerConfig {
        order_tick_offset: 2,
        ..cfg()
    };
    let target = |side| Joker::try_target(&away, &c, side).unwrap().unwrap();
    assert_eq!(target(Side::Bid), Decimal::new(998, 1));
    assert_eq!(target(Side::Ask), Decimal::new(1003, 1));
}

#[test]
fn target_inside_the_spread_does_not_cross() {
    let symbol = sym();
    let snap = book(Decimal::from(100), Decimal::new(1001, 1));
    let p = pos();
    let c = ctx(&symbol, &snap, &p, &[]);
    let inside = JokerConfig {
        order_tick_offset: -5,
        ..cfg()
    };
    let bid = Joker::try_target(&inside, &c, Side::Bid).unwrap().unwrap();
    let ask = Joker::try_target(&inside, &c, Side::Ask).unwrap().unwrap();
    assert!(bid < Decimal::new(1001, 1));
    assert!(ask > Decimal::from(100));
}

#[test]
fn tolerance_lets_a_near_order_stand() {
    let mut s = Joker::new(JokerConfig {
        order_tick_tolerance: 1,
        ..cfg()
    });
    let snap = book(Decimal::from(100), Decimal::new(1001, 1));
    let p = pos();
    let symbol = sym();
    let open = vec![(
        QuoteId(1),
        QuoteIntent {
            symbol: symbol.clone(),
            side: Side::Bid,
            price: Price(Decimal::new(999, 1)),
            size: Size(Decimal::one()),
            tif: TimeInForce::PostOnly,
            kind: QuoteKind::Point,
        },
    )];
    let actions = s.on_event(
        &ctx(&symbol, &snap, &p, &open),
        &MarketEvent::BookUpdate {
            snapshot: snap.clone(),
        },
    );
    assert_eq!(actions.len(), 1);
    assert!(matches!(&actions[0], Action::Quote(q) if q.side == Side::Ask));
}

#[test]
fn one_placement_is_kept_per_side_and_price() {
    let mut s = Joker::new(cfg());
    let snap = book(Decimal::from(100), Decimal::new(1001, 1));
    let p = pos();
    let symbol = sym();
    for now in [0u64, 11_000_000_000, 22_000_000_000] {
        let c = StrategyContext {
            now: Timestamp(now),
            ..ctx(&symbol, &snap, &p, &[])
        };
        assert_eq!(s.on_event(&c, &MarketEvent::Heartbeat { ts: Timestamp(now) }).len(), 2);
        assert_eq!(s.placement_ts.len(), 2);
        assert!(s.placement_ts.iter().all(|x| x.ts == Timestamp(now)));
    }
}

#[test]
fn filled_orders_are_joined_again_at_once() {
    let mut s = Joker::new(cfg());
    let snap = book(Decimal::from(100), Decimal::new(1001, 1));
    let p = pos();
    let symbol = sym();
    let mut react = |now: u64, open: &[(QuoteId, QuoteIntent)]| {
        let c = StrategyContext {
            now: Timestamp(now),
            ..ctx(&symbol, &snap, &p, open)
        };
        s.on_event(
            &c,
            &MarketEvent::BookUpdate {
                snapshot: snap.clone(),
            },
        )
    };
    let sent: Vec<QuoteIntent> = react(1_000_000_000, &[])
        .iter()
        .filter_map(|a| match a {
            Action::Quote(q) => Some(q.clone()),
            _ => None,
        })
        .collect();
    assert_eq!(sent.len(), 2);
    let open: Vec<(QuoteId, QuoteIntent)> =
        vec![(QuoteId(1), sent[0].clone()), (QuoteId(2), sent[1].clone())];
    // On their way, then resting.
    assert!(react(1_500_000_000, &[]).is_empty());
    assert!(react(2_000_000_000, &open).is_empty());
    // The ask is gone, then both are.
    let after = react(2_500_000_000, &open[..1]);
    assert_eq!(after.len(), 1);
    assert!(matches!(&after[0], Action::Quote(q) if q.side == Side::Ask && q.price == sent[1].price));
    let again = react(2_600_000_000, &[]);
    assert_eq!(again.len(), 1);
    assert!(matches!(&again[0], Action::Quote(q) if q.side == Side::Bid && q.price == sent[0].price));
}

#[test]
fn both_touches_are_quoted_again_after_both_fill() {
    let mut s = Joker::new(cfg());
    let snap = book(Decimal::from(100), Decimal::new(1001, 1));
    let p = pos();
    let symbol = sym();
    let update = MarketEvent::BookUpdate {
        snapshot: snap.clone(),
    };
    let sent = s.on_event(
        &StrategyContext {
            now: Timestamp(1_000_000_000),
            ..ctx(&symbol, &snap, &p, &[])
        },
        &update,
    );
    let open: Vec<(QuoteId, QuoteIntent)> = sent
        .iter()
        .enumerate()
        .filter_map(|(i, a)| match a {
            Action::Quote(q) => Some((QuoteId(i as u128), q.clone())),
            _ => None,
        })
        .collect();
    let resting = s.on_event(
        &StrategyContext {
            now: Timestamp(2_000_000_000),
            ..ctx(&symbol, &snap, &p, &open)
        },
        &update,
    );
    assert!(resting.is_empty());
    let again = s.on_event(
        &StrategyContext {
            now: Timestamp(3_000_000_000),
            ..ctx(&symbol, &snap, &p, &[])
        },
        &update,
    );
    let quoted: Vec<(Side, Decimal)> = again
        .iter()
        .filter_map(|a| match a {
            Action::Quote(q) => Some((q.side, q.price.0)),
            _ => None,
        })
        .collect();
    assert_eq!(
        quoted,
        vec![(Side::Bid, Decimal::from(100)), (Side::Ask, Decimal::new(1001, 1))]
    );
}
