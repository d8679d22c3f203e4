use tikr_strategy::Decimal;
use tikr_strategy::market::{
    Asset, Fill, Level, MarketEvent, MarketKind, Notional, Position, Price, QuoteId, Side,
    SignedSize, Size, Snapshot, Symbol, TimeInForce, Timestamp, VenueId,
};
use tikr_strategy::ratchet::{Cycle, Phase, Ratchet, RatchetConfig};
use tikr_strategy::strategy::{Action, Strategy, StrategyContext};

fn dec(text: &str) -> Decimal {
    let parsed = rust_decimal::Decimal::from_str_exact(text).unwrap();
    Decimal::from_i128_with_scale(parsed.mantissa(), parsed.scale())
}

fn sym() -> Symbol {
    Symbol {
        base: Asset::new("BTC"),
        quote: Asset::new("USDT"),
        venue: VenueId::new("binance"),
        kind: MarketKind::Perp,
    }
}

fn cfg() -> RatchetConfig {
    RatchetConfig {
        tick_size: dec("0.01"),
        step_size: dec("0.001"),
        min_notional: Decimal::from(5),
        notional_per_order: Decimal::from(100),
        tp_bps: 30,
        initial_offset_bps: 50,
        max_position_usdt: Decimal::from(500),
        sl_bps_from_first: 75,
        trend_window_secs: 0,
        trend_filter_bps: 0,
        refresh_cooldown_ms: 0,
        pyramid_step_bps: 0,
        pyramid_max_adds: 0,
        pyramid_size_mult: Decimal::one(),
        tp_bps_from_avg: 0,
    }
}

fn snap_at(bid: &str, ask: &str) -> Snapshot {
    Snapshot {
        symbol: sym(),
        ts: Timestamp(0),
        bids: vec![Level {
            price: Price(dec(bid)),
            size: Size(Decimal::from(10)),
        }],
        asks: vec![Level {
            price: Price(dec(ask)),
            size: Size(Decimal::from(10)),
        }],
    }
}

fn flat_pos() -> Position {
    Position {
        symbol: sym(),
        size: SignedSize(Decimal::zero()),
        avg_entry: Price(Decimal::zero()),
        realized_pnl: Notional(Decimal::zero()),
    }
}

#[test]
fn cold_start_places_symmetric_straddle() {
    let mut r = Ratchet::new(cfg());
    let s = sym();
    let pos = flat_pos();
    let ctx = StrategyContext {
        symbol: &s,
        now: Timestamp(0),
        position: &pos,
        recent_fills: &[],
        latest_book: &snap_at("99000", "99100"),
        open_quotes: &[],
        recent_liqs: &[],
    };
    let actions = r.on_event(
        &ctx,
        &MarketEvent::BookUpdate {
            snapshot: snap_at("99000", "99100"),
        },
    );
    // CancelAll + bid + ask
    assert_eq!(actions.len(), 3);
    assert!(matches!(actions[0], Action::CancelAll));
    // Mid = 99050; initial_offset_bps=50 → bid ≈ 99050 × 0.995 = 98554.75
    // ask ≈ 99050 × 1.005 = 99545.25
    let bid = match &actions[1] {
        Action::Quote(q) => q,
        _ => panic!("expected Quote"),
    };
    let ask = match &actions[2] {
        Action::Quote(q) => q,
        _ => panic!("expected Quote"),
    };
    assert_eq!(bid.side, Side::Bid);
    assert_eq!(ask.side, Side::Ask);
    assert!(bid.price.0 < Decimal::from(99000));
    assert!(ask.price.0 > Decimal::from(99100));
}

#[test]
fn ratchet_after_buy_fill_targets_higher_ask() {
    let mut r = Ratchet::new(cfg());
    let s = sym();
    // Cold start places initial straddle.
    let pos = flat_pos();
    let ctx = StrategyContext {
        symbol: &s,
        now: Timestamp(0),
        position: &pos,
        recent_fills: &[],
        latest_book: &snap_at("99000", "99100"),
        open_quotes: &[],
        recent_liqs: &[],
    };
    let _ = r.on_event(
        &ctx,
        &MarketEvent::BookUpdate {
            snapshot: snap_at("99000", "99100"),
        },
    );

    // Buy fill at $98554 (the initial bid).
    let fill = Fill {
        quote_id: QuoteId(1),
        price: Price(Decimal::from(98554)),
        size: Size(dec("0.001")),
        fee_asset: Asset::new("USDT"),
        fee_amount: Decimal::zero(),
        fee_quote: Notional(Decimal::zero()),
        side: Side::Bid,
        ts: Timestamp(1_000_000),
        is_full: true,
        trade_id: None,
    };
    let _ = r.on_event(&ctx, &MarketEvent::Fill(fill));
    assert_eq!(r.last_buy_price, Some(Decimal::from(98554)));

    // Now an event with non-zero position should trigger phase
    // transition AND the next ratchet ask should be ABOVE 98554
    // (specifically 98554 × 1.003 = 98849.66).
    let long_pos = Position {
        symbol: sym(),
        size: SignedSize(dec("0.001")),
        avg_entry: Price(Decimal::from(98554)),
        realized_pnl: Notional(Decimal::zero()),
    };
    let ctx2 = StrategyContext {
        symbol: &s,
        now: Timestamp(2_000_000),
        position: &long_pos,
        recent_fills: &[],
        latest_book: &snap_at("98500", "98600"),
        open_quotes: &[],
        recent_liqs: &[],
    };
    let actions = r.on_event(
        &ctx2,
        &MarketEvent::BookUpdate {
            snapshot: snap_at("98500", "98600"),
        },
    );
    // Phase should be Holding now.
    assert!(matches!(
        r.phase,
        Phase::Holding(Cycle {
            side_long: true,
            ..
        })
    ));
    // The ask in the new orders should be > 98554 (last_buy + tp).
    let ask = actions.iter().find_map(|a| match a {
        Action::Quote(q) if q.side == Side::Ask => Some(q.price.0),
        _ => None,
    });
    assert!(ask.is_some(), "ask should be placed");
    assert!(
        ask.unwrap() > Decimal::from(98554),
        "ratchet ask {:?} should be above last_buy 98554",
        ask.unwrap()
    );
}

#[test]
fn sl_only_fires_when_holding() {
    let mut c = cfg();
    c.sl_bps_from_first = 50;
    c.refresh_cooldown_ms = 0;
    let mut r = Ratchet::new(c);
    let s = sym();
    // Drive to Holding with a long at 99000, then drift mid down 1%.
    let pos = Position {
        symbol: sym(),
        size: SignedSize(dec("0.001")),
        avg_entry: Price(Decimal::from(99000)),
        realized_pnl: Notional(Decimal::zero()),
    };
    let snap = snap_at("98000", "98100");
    let ctx = StrategyContext {
        symbol: &s,
        now: Timestamp(0),
        position: &pos,
        recent_fills: &[],
        latest_book: &snap,
        open_quotes: &[],
        recent_liqs: &[],
    };
    let actions = r.on_event(
        &ctx,
        &MarketEvent::BookUpdate {
            snapshot: snap.clone(),
        },
    );
    // Drift = (98050 - 99000) / 99000 × 10000 = -95.95 bps → SL=50 fires.
    assert!(
        actions.len() == 2,
        "expected CancelAll + IOC, got {actions:?}"
    );
    assert!(matches!(actions[0], Action::CancelAll));
    let ioc = match &actions[1] {
        Action::Quote(q) => q,
        _ => panic!(),
    };
    assert_eq!(ioc.tif, TimeInForce::IOC);
    assert_eq!(ioc.side, Side::Ask, "long SL closes via ask");
    // Phase should reset to Flat after SL.
    assert!(matches!(r.phase, Phase::Flat));
}

#[test]
fn same_quotes_are_placed_once() {
    let mut c = cfg();
    c.refresh_cooldown_ms = 0;
    let mut r = Ratchet::new(c);
    let s = sym();
    let pos = flat_pos();
    let book = snap_at("99000", "99100");
    let mut counts = vec![];
    for now in [0u64, 1_000_000_000, 2_000_000_000] {
        let ctx = StrategyContext {
            symbol: &s,
            now: Timestamp(now),
            position: &pos,
            recent_fills: &[],
            latest_book: &book,
            open_quotes: &[],
            recent_liqs: &[],
        };
        counts.push(
            r.on_event(
                &ctx,
                &MarketEvent::BookUpdate {
                    snapshot: book.clone(),
                },
            )
            .len(),
        );
    }
    assert_eq!(counts, vec![3, 0, 0]);
}

#[test]
fn capped_long_is_only_sold() {
    let mut c = cfg();
    c.max_position_usdt = Decimal::from(50);
    let mut r = Ratchet::new(c);
    let s = sym();
    let pos = Position {
        size: SignedSize(dec("0.001")),
        avg_entry: Price(Decimal::from(99_000)),
        ..flat_pos()
    };
    let book = snap_at("99000", "99100");
    let ctx = StrategyContext {
        symbol: &s,
        now: Timestamp(0),
        position: &pos,
        recent_fills: &[],
        latest_book: &book,
        open_quotes: &[],
        recent_liqs: &[],
    };
    let actions = r.on_event(
        &ctx,
        &MarketEvent::BookUpdate {
            snapshot: book.clone(),
        },
    );
    assert!(actions.iter().any(|a| matches!(a, Action::Quote(q) if q.side == Side::Ask)));
    assert!(!actions.iter().any(|a| matches!(a, Action::Quote(q) if q.side == Side::Bid)));
}

/// The quotes of the pyramid at a fresh entry of 100_000, and once the average has
/// come down to 99_500.
fn pyramid_quotes(tp_bps_from_avg: u32) -> Vec<Vec<(Side, Decimal, Decimal)>> {
    let mut r = Ratchet::new(RatchetConfig {
        notional_per_order: Decimal::from(200),
        max_position_usdt: Decimal::from(2_000),
        sl_bps_from_first: 0,
        pyramid_step_bps: 100,
        pyramid_max_adds: 2,
        pyramid_size_mult: Decimal::from(2),
        tp_bps_from_avg,
        ..cfg()
    });
    let s = sym();
    let book = snap_at("99990", "100010");
    [100_000, 99_500]
        .into_iter()
        .map(|avg| {
            let pos = Position {
                size: SignedSize(dec("0.002")),
                avg_entry: Price(Decimal::from(avg)),
                ..flat_pos()
            };
            let ctx = StrategyContext {
                symbol: &s,
                now: Timestamp(1),
                position: &pos,
                recent_fills: &[],
                latest_book: &book,
                open_quotes: &[],
                recent_liqs: &[],
            };
            let actions = r.on_event(
                &ctx,
                &MarketEvent::BookUpdate {
                    snapshot: book.clone(),
                },
            );
            actions
                .iter()
                .filter_map(|a| match a {
                    Action::Quote(q) => Some((q.side, q.price.0, q.size.0)),
                    _ => None,
                })
                .collect()
        })
        .collect()
}

#[test]
fn pyramid_closes_from_the_first_entry_without_an_average_target() {
    let quotes = pyramid_quotes(0);
    assert_eq!(
        quotes[0],
        vec![
            (Side::Ask, Decimal::from(100_300), dec("0.002")),
            (Side::Bid, Decimal::from(99_000), dec("0.004")),
        ]
    );
    // The average moved, the first entry did not.
    assert!(quotes[1].is_empty());
}

#[test]
fn pyramid_closes_from_the_average_entry() {
    let quotes = pyramid_quotes(20);
    assert_eq!(quotes[0][0], (Side::Ask, Decimal::from(100_200), dec("0.002")));
    // 99_699 would take liquidity from a bid of 99_990.
    assert_eq!(quotes[1], vec![(Side::Bid, Decimal::from(99_000), dec("0.004"))]);
}

/// The sides and prices quoted on a book of 99 / 101 for a position of this size at 100.
fn quoted_with(size: &str) -> Vec<(Side, Decimal)> {
    let mut r = Ratchet::new(cfg());
    let s = sym();
    let pos = Position {
        size: SignedSize(dec(size)),
        avg_entry: Price(Decimal::from(100)),
        ..flat_pos()
    };
    let book = snap_at("99", "101");
    let ctx = StrategyContext {
        symbol: &s,
        now: Timestamp(0),
        position: &pos,
        recent_fills: &[],
        latest_book: &book,
        open_quotes: &[],
        recent_liqs: &[],
    };
    r.on_event(
        &ctx,
        &MarketEvent::BookUpdate {
            snapshot: book.clone(),
        },
    )
    .iter()
    .filter_map(|a| match a {
        Action::Quote(q) => Some((q.side, q.price.0)),
        _ => None,
    })
    .collect()
}

#[test]
fn order_that_would_push_past_the_cap_is_suppressed() {
    // A position worth 450 and a bid of 100 would be worth 550, past the cap of 500.
    assert_eq!(quoted_with("4.5"), vec![(Side::Ask, dec("100.5"))]);
    assert_eq!(quoted_with("-4.5"), vec![(Side::Bid, dec("99.5"))]);
    // Worth 390, the bid of 1.005 at 99.5 stays within it.
    assert_eq!(
        quoted_with("3.9"),
        vec![(Side::Bid, dec("99.5")), (Side::Ask, dec("100.5"))]
    );
}

#[test]
fn pyramid_does_not_add_past_the_cap() {
    let mut r = Ratchet::new(RatchetConfig {
        notional_per_order: Decimal::from(200),
        sl_bps_from_first: 0,
        pyramid_step_bps: 100,
        pyramid_max_adds: 2,
        pyramid_size_mult: Decimal::from(2),
        ..cfg()
    });
    let s = sym();
    let book = snap_at("99990", "100010");
    // Worth 200, with an add of 0.004 worth 600.
    let pos = Position {
        size: SignedSize(dec("0.002")),
        avg_entry: Price(Decimal::from(100_000)),
        ..flat_pos()
    };
    let ctx = StrategyContext {
        symbol: &s,
        now: Timestamp(1),
        position: &pos,
        recent_fills: &[],
        latest_book: &book,
        open_quotes: &[],
        recent_liqs: &[],
    };
    let actions = r.on_event(
        &ctx,
        &MarketEvent::BookUpdate {
            snapshot: book.clone(),
        },
    );
    assert_eq!(actions.len(), 2);
    assert!(matches!(&actions[1], Action::Quote(q) if q.side == Side::Ask));
}
