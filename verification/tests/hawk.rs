use tikr_strategy::Decimal;
use tikr_strategy::hawk::{Hawk, HawkConfig};
use tikr_strategy::market::{
    Asset, Level, MarketEvent, MarketKind, Notional, Position, Price, Side, SignedSize, Size,
    Snapshot, Symbol, TimeInForce, Timestamp, VenueId,
};
use tikr_strategy::strategy::{Action, Strategy, StrategyContext};

fn dec(text: &str) -> Decimal {
    let parsed = rust_decimal::Decimal::from_str_exact(text).unwrap();
    Decimal::from_i128_with_scale(parsed.mantissa(), parsed.scale())
}

fn minus(a: Decimal, b: Decimal) -> Decimal {
    a.checked_sub(b).unwrap()
}

fn sym() -> Symbol {
    Symbol {
        base: Asset::new("BTC"),
        quote: Asset::new("USDT"),
        venue: VenueId::new("test"),
        kind: MarketKind::Perp,
    }
}

fn cfg() -> HawkConfig {
    HawkConfig {
        notional_per_order: Decimal::from(100),
        tick_size: dec("0.1"),
        step_size: dec("0.001"),
        min_notional: Decimal::zero(),
        levels_per_side: 2,
        inner_bps: 3,
        step_bps: 2,
        min_spread_bps: Decimal::from(5),
        max_position_usdt: Decimal::zero(),
        close_target_bps: 0,
        take_profit_bps: 0,
        stop_loss_bps: 0,
    }
}

fn snap(bid: i64, ask: i64, ts: u64) -> Snapshot {
    Snapshot {
        symbol: sym(),
        ts: Timestamp(ts),
        bids: vec![Level {
            price: Price(Decimal::from(bid)),
            size: Size(Decimal::one()),
        }],
        asks: vec![Level {
            price: Price(Decimal::from(ask)),
            size: Size(Decimal::one()),
        }],
    }
}

fn ctx<'a>(s: &'a Symbol, p: &'a Position, snap: &'a Snapshot) -> StrategyContext<'a> {
    StrategyContext {
        symbol: s,
        now: snap.ts,
        position: p,
        recent_fills: &[],
        latest_book: snap,
        open_quotes: &[],
        recent_liqs: &[],
    }
}

fn flat() -> Position {
    Position {
        symbol: sym(),
        size: SignedSize(Decimal::zero()),
        avg_entry: Price(Decimal::zero()),
        realized_pnl: Notional(Decimal::zero()),
    }
}

#[test]
fn cold_book_flat_position_emits_cancel_all_only() {
    let mut h = Hawk::new(cfg());
    let s = sym();
    let p = flat();
    // 1 bps spread on 100_000 mid → below 5 bps gate.
    let snap = snap(99_995, 100_005, 1_000_000_000);
    let c = ctx(&s, &p, &snap);
    let actions = h.on_event(&c, &MarketEvent::BookUpdate { snapshot: snap.clone() });
    assert_eq!(actions.len(), 1);
    assert!(matches!(actions[0], Action::CancelAll));
}

#[test]
fn hot_book_places_ladder() {
    let mut h = Hawk::new(cfg());
    let s = sym();
    let p = flat();
    // 10 bps spread on 100_000 mid → above 5 bps gate.
    let snap = snap(99_950, 100_050, 1_000_000_000);
    let c = ctx(&s, &p, &snap);
    let actions = h.on_event(&c, &MarketEvent::BookUpdate { snapshot: snap.clone() });
    // CancelAll + 2 levels × 2 sides = 5 actions.
    assert_eq!(actions.len(), 5);
    assert!(matches!(actions[0], Action::CancelAll));
    // Innermost first: nearest-to-mid quote follows CancelAll.
    if let Action::Quote(intent) = &actions[1] {
        let mid = Decimal::from(100_000);
        let d = minus(intent.price.0, mid).abs();
        // Innermost = within 1 bps (the inner_bps target + tick join).
        assert!(d <= Decimal::from(100));
    } else {
        panic!("expected innermost Quote first");
    }
}

#[test]
fn cold_with_long_position_keeps_ask_at_target() {
    let mut h = Hawk::new(cfg());
    let s = sym();
    // Long 0.001 BTC at avg_entry 100_000.
    let p = Position {
        symbol: sym(),
        size: SignedSize(dec("0.001")),
        avg_entry: Price(Decimal::from(100_000)),
        realized_pnl: Notional(Decimal::zero()),
    };
    // 2 bps spread (below 5 bps gate) but market hasn't moved.
    let snap = snap(99_990, 100_010, 1_000_000_000);
    let c = ctx(&s, &p, &snap);
    let actions = h.on_event(&c, &MarketEvent::BookUpdate { snapshot: snap.clone() });
    // CancelAll + one close-side Ask quote.
    assert_eq!(actions.len(), 2);
    assert!(matches!(actions[0], Action::CancelAll));
    let Action::Quote(intent) = &actions[1] else {
        panic!("expected Quote");
    };
    assert_eq!(intent.side, Side::Ask);
    // Target = avg_entry * (1 + min_spread_bps/10000) = 100_050.
    // close_target_bps defaults to min_spread_bps when 0.
    assert_eq!(intent.price.0, Decimal::from(100_050));
}

#[test]
fn add_side_capped_when_at_position_cap() {
    let mut c = cfg();
    c.max_position_usdt = Decimal::from(100);
    let mut h = Hawk::new(c);
    let s = sym();
    // Already long $200 worth — over the $100 cap.
    let p = Position {
        symbol: sym(),
        size: SignedSize(dec("0.002")),
        avg_entry: Price(Decimal::from(100_000)),
        realized_pnl: Notional(Decimal::zero()),
    };
    // Hot spread = 10 bps.
    let snap = snap(99_950, 100_050, 1_000_000_000);
    let cx = ctx(&s, &p, &snap);
    let actions = h.on_event(&cx, &MarketEvent::BookUpdate { snapshot: snap.clone() });
    // Long + capped → Bid side suppressed. Only Ask levels + CancelAll.
    let quote_sides: Vec<Side> = actions
        .iter()
        .filter_map(|a| match a {
            Action::Quote(intent) => Some(intent.side),
            _ => None,
        })
        .collect();
    assert!(!quote_sides.is_empty());
    assert!(quote_sides.iter().all(|s| *s == Side::Ask));
}

#[test]
fn ladder_is_sorted_outward_from_the_mid() {
    let mut h = Hawk::new(cfg());
    let s = sym();
    let p = flat();
    let book = snap(99_950, 100_050, 1_000_000_000);
    let actions = h.on_event(
        &ctx(&s, &p, &book),
        &MarketEvent::BookUpdate {
            snapshot: book.clone(),
        },
    );
    let mid = Decimal::from(100_000);
    let away: Vec<Decimal> = actions
        .iter()
        .filter_map(|a| match a {
            Action::Quote(q) => Some(minus(q.price.0, mid).abs()),
            _ => None,
        })
        .collect();
    assert_eq!(away.len(), 4);
    assert!(away.iter().all(|d| *d >= away[0]));
}

#[test]
fn cold_short_is_bought_back_at_its_target() {
    let mut h = Hawk::new(cfg());
    let s = sym();
    let p = Position {
        size: SignedSize(dec("-0.001")),
        avg_entry: Price(Decimal::from(100_000)),
        ..flat()
    };
    let book = snap(99_990, 100_010, 1_000_000_000);
    let actions = h.on_event(
        &ctx(&s, &p, &book),
        &MarketEvent::BookUpdate {
            snapshot: book.clone(),
        },
    );
    assert_eq!(actions.len(), 2);
    let Action::Quote(close) = &actions[1] else {
        panic!("expected Quote");
    };
    assert_eq!(close.side, Side::Bid);
    assert_eq!(close.price.0, Decimal::from(99_950));
}

#[test]
fn hawk_stop_loss_flattens_at_once() {
    let mut h = Hawk::new(HawkConfig {
        stop_loss_bps: 100,
        ..cfg()
    });
    let s = sym();
    let p = Position {
        size: SignedSize(dec("0.001")),
        avg_entry: Price(Decimal::from(102_000)),
        ..flat()
    };
    let book = snap(99_950, 100_050, 1_000_000_000);
    let actions = h.on_event(
        &ctx(&s, &p, &book),
        &MarketEvent::BookUpdate {
            snapshot: book.clone(),
        },
    );
    match actions.as_slice() {
        [Action::CancelAll, Action::Quote(q)] => {
            assert_eq!((q.side, q.tif), (Side::Ask, TimeInForce::IOC));
            assert_eq!((q.price.0, q.size.0), (Decimal::from(99_950), dec("0.001")));
        }
        other => panic!("expected a close, got {other:?}"),
    }
}

#[test]
fn outer_levels_stand_off_the_mid() {
    let mut h = Hawk::new(cfg());
    let s = sym();
    let p = flat();
    let book = snap(99_950, 100_050, 1_000_000_000);
    let actions = h.on_event(
        &ctx(&s, &p, &book),
        &MarketEvent::BookUpdate {
            snapshot: book.clone(),
        },
    );
    assert_eq!(actions.len(), 5);
    assert!(matches!(actions[0], Action::CancelAll));
    let prices = |side: Side| -> Vec<Decimal> {
        actions
            .iter()
            .filter_map(|a| match a {
                Action::Quote(q) if q.side == side => Some(q.price.0),
                _ => None,
            })
            .collect()
    };
    // One tick inside the touch, then 5 bps from the mid of 100_000.
    assert_eq!(prices(Side::Bid), vec![dec("99950.1"), dec("99950")]);
    assert_eq!(prices(Side::Ask), vec![dec("100049.9"), dec("100050")]);
}
