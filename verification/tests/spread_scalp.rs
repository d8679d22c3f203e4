use tikr_strategy::Decimal;
use tikr_strategy::market::{
    Asset, Fill, Level, MarketEvent, MarketKind, Notional, Position, Price, QuoteId, QuoteIntent,
    QuoteKind, Side, SignedSize, Size, Snapshot, Symbol, TimeInForce, Timestamp, VenueId,
};
use tikr_strategy::spread_scalp::{SpreadScalp, SpreadScalpConfig};
use tikr_strategy::spread_scalp::adverse_tracker::AdverseConfig;
use tikr_strategy::strategy::{Action, Strategy, StrategyContext};

fn sym() -> Symbol {
    Symbol {
        base: Asset::new("BTC"),
        quote: Asset::new("USDT"),
        venue: VenueId::new("test"),
        kind: MarketKind::Perp,
    }
}

fn book(symbol: &Symbol, bid: i64, ask: i64, ts: u64) -> Snapshot {
    Snapshot {
        symbol: symbol.clone(),
        bids: vec![Level {
            price: Price(Decimal::from(bid)),
            size: Size(Decimal::one()),
        }],
        asks: vec![Level {
            price: Price(Decimal::from(ask)),
            size: Size(Decimal::one()),
        }],
        ts: Timestamp(ts),
    }
}

fn pos(symbol: &Symbol) -> Position {
    Position {
        symbol: symbol.clone(),
        size: SignedSize(Decimal::zero()),
        avg_entry: Price(Decimal::zero()),
        realized_pnl: Notional(Decimal::zero()),
    }
}

fn pos_with_size(symbol: &Symbol, size: Decimal) -> Position {
    Position {
        symbol: symbol.clone(),
        size: SignedSize(size),
        avg_entry: Price(Decimal::zero()),
        realized_pnl: Notional(Decimal::zero()),
    }
}

fn ctx<'a>(
    symbol: &'a Symbol,
    snapshot: &'a Snapshot,
    position: &'a Position,
) -> StrategyContext<'a> {
    StrategyContext {
        symbol,
        now: snapshot.ts,
        position,
        recent_fills: &[],
        latest_book: snapshot,
        open_quotes: &[],
        recent_liqs: &[],
    }
}

fn strategy() -> SpreadScalp {
    SpreadScalp::new(SpreadScalpConfig {
        notional_per_order: Decimal::from(100),
        tick_size: Decimal::from(1),
        step_size: Decimal::from(1),
        min_notional: Decimal::zero(),
        min_spread_bps: Decimal::from(5),
        requote_interval_ms: 1000,
        max_position_usdt: Decimal::zero(),
        take_profit_usdt: Decimal::zero(),
        reject_cooldown_ms: 0,
        price_tolerance_ticks: 0,
        take_profit_bps: 0,
        stop_loss_bps: 0,
        adverse: AdverseConfig::disabled(),
        // Default-on in production; default-OFF in unit tests so
        // existing flat-position cancel-on-tight-spread assertions
        // don't regress. Tests that need the new behaviour can opt
        // in by mutating this field on the config.
        close_side_always_quotes: false,
        close_decay_after_secs_1: 0,
        close_decay_factor_1: Decimal::one(),
        close_decay_after_secs_2: 0,
        close_decay_factor_2: Decimal::one(),
        adverse_stop_after_secs: 0,
        adverse_stop_drift_bps: 0,
        quote_offset_ticks: -1,
        close_target_ticks: 0,
        strict_touch_quotes: false,
    })
}

#[test]
fn mod_wide_spread_quotes_at_best() {
    let symbol = sym();
    let snapshot = book(&symbol, 100, 110, 1);
    let position = pos(&symbol);
    let mut strategy = strategy();
    let actions = strategy.on_event(
        &ctx(&symbol, &snapshot, &position),
        &MarketEvent::BookUpdate {
            snapshot: snapshot.clone(),
        },
    );
    assert_eq!(actions.len(), 2);
    match (&actions[0], &actions[1]) {
        (Action::Quote(bid), Action::Quote(ask)) => {
            // 1 tick inside best bid/ask
            assert_eq!(bid.price.0, Decimal::from(101));
            assert_eq!(ask.price.0, Decimal::from(109));
        }
        _ => panic!("expected quotes"),
    }
}

#[test]
fn mod_narrow_spread_does_not_quote() {
    let symbol = sym();
    let snapshot = book(&symbol, 100, 100, 1);
    let position = pos(&symbol);
    let mut strategy = strategy();
    let actions = strategy.on_event(
        &ctx(&symbol, &snapshot, &position),
        &MarketEvent::BookUpdate {
            snapshot: snapshot.clone(),
        },
    );
    assert!(
        actions.is_empty(),
        "narrow spread should produce no actions, got {:?}",
        actions
    );
}

#[test]
fn mod_does_not_requote_when_already_at_best() {
    let symbol = sym();
    let snapshot = book(&symbol, 100, 110, 1);
    let position = pos(&symbol);
    let mut strategy = strategy();
    let first = strategy.on_event(
        &ctx(&symbol, &snapshot, &position),
        &MarketEvent::BookUpdate {
            snapshot: snapshot.clone(),
        },
    );
    assert_eq!(first.len(), 2);

    let second = strategy.on_event(
        &ctx(&symbol, &snapshot, &position),
        &MarketEvent::BookUpdate {
            snapshot: snapshot.clone(),
        },
    );
    assert!(matches!(second.as_slice(), [Action::NoOp]));
}

#[test]
fn mod_requotes_when_market_moves() {
    let symbol = sym();
    let first = book(&symbol, 100, 110, 1);
    let moved = book(&symbol, 102, 112, 2_000_000_000);
    let position = pos(&symbol);
    let mut strategy = strategy();
    let _ = strategy.on_event(
        &ctx(&symbol, &first, &position),
        &MarketEvent::BookUpdate {
            snapshot: first.clone(),
        },
    );
    let actions = strategy.on_event(
        &ctx(&symbol, &moved, &position),
        &MarketEvent::BookUpdate {
            snapshot: moved.clone(),
        },
    );
    assert_eq!(actions.len(), 2);
    match (&actions[0], &actions[1]) {
        (Action::Quote(bid), Action::Quote(ask)) => {
            // 1 tick inside best bid/ask
            assert_eq!(bid.price.0, Decimal::from(103));
            assert_eq!(ask.price.0, Decimal::from(111));
        }
        _ => panic!("expected quotes"),
    }
}

#[test]
fn long_inventory_pins_ask_to_position_size() {
    // Close-side (Ask for long) is now pinned to abs(position.size)
    // rather than notional/price × multiplier. This prevents
    // lot-step jitter from triggering Replace when price moves
    // within `price_tolerance_ticks`.
    let symbol = sym();
    let snapshot = book(&symbol, 50, 60, 1);
    let pos_size = Decimal::new(5, 1);
    let position = pos_with_size(&symbol, pos_size);
    let mut strategy = strategy();
    let actions = strategy.on_event(
        &ctx(&symbol, &snapshot, &position),
        &MarketEvent::BookUpdate {
            snapshot: snapshot.clone(),
        },
    );
    assert_eq!(actions.len(), 2);
    match (&actions[0], &actions[1]) {
        (Action::Quote(bid), Action::Quote(ask)) => {
            assert_eq!(ask.size.0, pos_size.abs(), "ask pinned to position size");
            // Bid (entry side) still notional-derived. Default
            // strategy() has quote_offset_ticks=-1 → bid price =
            // best_bid + 1 tick = 51, size = floor(100/51) = 1.
            assert_eq!(bid.size.0, Decimal::one());
        }
        _ => panic!("expected quotes"),
    }
}

#[test]
fn short_inventory_pins_bid_to_position_size() {
    let symbol = sym();
    let snapshot = book(&symbol, 100, 110, 1);
    let pos_size = Decimal::new(-5, 1);
    let position = pos_with_size(&symbol, pos_size);
    let mut strategy = strategy();
    let actions = strategy.on_event(
        &ctx(&symbol, &snapshot, &position),
        &MarketEvent::BookUpdate {
            snapshot: snapshot.clone(),
        },
    );
    assert_eq!(actions.len(), 2);
    match (&actions[0], &actions[1]) {
        (Action::Quote(bid), Action::Quote(ask)) => {
            assert_eq!(bid.size.0, pos_size.abs(), "bid pinned to position size");
            // Ask (entry side) still notional-derived: 100/110 floor
            // to step=1 = 0. min_notional is ZERO in tests so the
            // zero-size emit is allowed.
            assert_eq!(ask.size.0, Decimal::zero());
        }
        _ => panic!("expected quotes"),
    }
}

#[test]
fn mod_cancel_when_spread_narrows() {
    let symbol = sym();
    let wide = book(&symbol, 100, 110, 1);
    let narrow = book(&symbol, 100, 100, 2);
    let position = pos(&symbol);
    let mut strategy = strategy();
    let _ = strategy.on_event(
        &ctx(&symbol, &wide, &position),
        &MarketEvent::BookUpdate {
            snapshot: wide.clone(),
        },
    );
    let actions = strategy.on_event(
        &ctx(&symbol, &narrow, &position),
        &MarketEvent::BookUpdate {
            snapshot: narrow.clone(),
        },
    );
    assert!(matches!(actions.as_slice(), [Action::CancelAll]));
}

#[test]
fn mod_fill_triggers_requote() {
    let symbol = sym();
    let snapshot = book(&symbol, 100, 110, 1);
    let position = pos(&symbol);
    let mut strategy = strategy();
    let _ = strategy.on_event(
        &ctx(&symbol, &snapshot, &position),
        &MarketEvent::BookUpdate {
            snapshot: snapshot.clone(),
        },
    );
    let actions = strategy.on_event(
        &ctx(&symbol, &snapshot, &position),
        &MarketEvent::Fill(Fill {
            quote_id: QuoteId(1),
            price: Price(Decimal::from(101)),
            size: Size(Decimal::one()),
            fee_asset: Asset::new("USDT"),
            fee_amount: Decimal::zero(),
            fee_quote: Notional(Decimal::zero()),
            side: Side::Bid,
            ts: Timestamp(2),
            is_full: true,
            trade_id: None,
        }),
    );
    // Fill replaces only the filled side; opposite side stays live.
    assert_eq!(actions.len(), 1);
    match &actions[0] {
        Action::Quote(q) => assert_eq!(q.side, Side::Bid),
        other => panic!("expected Quote, got {:?}", other),
    }
}

#[test]
fn post_only_race_starts_no_cooldown() {
    let symbol = sym();
    let snapshot = book(&symbol, 100, 110, 1);
    let position = pos(&symbol);
    let quoted_again = |reason: &str| {
        let mut strategy = SpreadScalp::new(SpreadScalpConfig {
            reject_cooldown_ms: 10_000,
            ..strategy().config
        });
        let actions = strategy.on_event(
            &ctx(&symbol, &snapshot, &position),
            &MarketEvent::BookUpdate {
                snapshot: snapshot.clone(),
            },
        );
        let Action::Quote(bid) = &actions[0] else {
            panic!("expected a quote");
        };
        let _ = strategy.on_quote_rejected(&ctx(&symbol, &snapshot, &position), bid, reason);
        strategy.last_reject_bid_ts.is_none()
    };
    assert!(quoted_again("error -5022: would immediately match"));
    assert!(!quoted_again("insufficient balance"));
}

#[test]
fn capped_long_quotes_the_ask_only() {
    let symbol = sym();
    let snapshot = book(&symbol, 100, 110, 1);
    let position = pos_with_size(&symbol, Decimal::from(1));
    let mut strategy = SpreadScalp::new(SpreadScalpConfig {
        max_position_usdt: Decimal::from(100),
        ..strategy().config
    });
    let actions = strategy.on_event(
        &ctx(&symbol, &snapshot, &position),
        &MarketEvent::BookUpdate {
            snapshot: snapshot.clone(),
        },
    );
    assert!(!actions.iter().any(|a| matches!(a, Action::Quote(q) if q.side == Side::Bid)));
    assert!(actions.iter().any(|a| matches!(a, Action::Quote(q) if q.side == Side::Ask)));
}

#[test]
fn close_target_holds_out_above_the_entry() {
    let symbol = sym();
    let snapshot = book(&symbol, 100, 110, 1);
    let mut position = pos_with_size(&symbol, Decimal::from(1));
    position.avg_entry = Price(Decimal::from(108));
    let mut strategy = SpreadScalp::new(SpreadScalpConfig {
        close_target_ticks: 6,
        quote_offset_ticks: 0,
        ..strategy().config
    });
    let actions = strategy.on_event(
        &ctx(&symbol, &snapshot, &position),
        &MarketEvent::BookUpdate {
            snapshot: snapshot.clone(),
        },
    );
    let ask = actions
        .iter()
        .find_map(|a| match a {
            Action::Quote(q) if q.side == Side::Ask => Some(q.price.0),
            _ => None,
        })
        .unwrap();
    assert_eq!(ask, Decimal::from(114));
}

/// A strategy with a cap of 100 that has quoted a bid at 101 and an ask at 109, and the
/// orders as the venue shows them.
fn capped_with_quotes() -> (SpreadScalp, Vec<(QuoteId, QuoteIntent)>) {
    let symbol = sym();
    let snapshot = book(&symbol, 100, 110, 1);
    let position = pos(&symbol);
    let mut s = strategy();
    s.config.max_position_usdt = Decimal::from(100);
    let actions = s.on_event(
        &ctx(&symbol, &snapshot, &position),
        &MarketEvent::BookUpdate {
            snapshot: snapshot.clone(),
        },
    );
    let open: Vec<(QuoteId, QuoteIntent)> = actions
        .iter()
        .enumerate()
        .filter_map(|(i, a)| match a {
            Action::Quote(q) => Some((QuoteId(10 + i as u128), q.clone())),
            _ => None,
        })
        .collect();
    assert_eq!(open.len(), 2);
    assert_eq!((open[0].1.side, open[0].1.price.0), (Side::Bid, Decimal::from(101)));
    assert_eq!((open[1].1.side, open[1].1.price.0), (Side::Ask, Decimal::from(109)));
    (s, open)
}

#[test]
fn capped_side_is_cancelled_on_a_trade() {
    let (mut s, open) = capped_with_quotes();
    let symbol = sym();
    let snapshot = book(&symbol, 100, 110, 1);
    let position = pos_with_size(&symbol, Decimal::from(10));
    let c = StrategyContext {
        now: Timestamp(2),
        open_quotes: &open,
        ..ctx(&symbol, &snapshot, &position)
    };
    let trade = MarketEvent::Trade {
        symbol: symbol.clone(),
        price: Price(Decimal::from(105)),
        size: Size(Decimal::one()),
        side: Side::Bid,
        ts: Timestamp(2),
    };
    let actions = s.on_event(&c, &trade);
    assert_eq!(actions.len(), 1);
    assert!(matches!(actions[0], Action::Cancel(id) if id == open[0].0));
    // It is known to be gone, so nothing is left to cancel.
    let c = StrategyContext {
        open_quotes: &open[1..],
        ..c
    };
    assert!(s.on_event(&c, &trade).is_empty());
}

#[test]
fn capped_side_is_cancelled_on_a_fill_without_targets() {
    let (mut s, open) = capped_with_quotes();
    let symbol = sym();
    // A spread too tight to quote.
    let snapshot = Snapshot {
        asks: vec![Level {
            price: Price(Decimal::new(10001, 2)),
            size: Size(Decimal::one()),
        }],
        ..book(&symbol, 100, 110, 2)
    };
    let position = pos_with_size(&symbol, Decimal::from(10));
    let c = StrategyContext {
        open_quotes: &open,
        ..ctx(&symbol, &snapshot, &position)
    };
    let fill = Fill {
        quote_id: open[1].0,
        price: Price(Decimal::from(109)),
        size: Size(Decimal::one()),
        fee_asset: Asset::new("USDT"),
        fee_amount: Decimal::zero(),
        fee_quote: Notional(Decimal::zero()),
        side: Side::Ask,
        ts: Timestamp(2),
        is_full: true,
        trade_id: None,
    };
    let actions = s.on_event(&c, &MarketEvent::Fill(fill));
    assert_eq!(actions.len(), 2);
    assert!(matches!(actions[0], Action::Cancel(id) if id == open[0].0));
    assert!(matches!(actions[1], Action::CancelAll));
}

#[test]
fn closing_target_counts_ticks_as_configured() {
    let symbol = sym();
    let snapshot = book(&symbol, 100, 110, 1);
    let mut s = strategy();
    s.config.quote_offset_ticks = 0;
    s.config.close_target_ticks = 3_000_000_000;
    s.config.tick_size = Decimal::new(1, 6);
    let position = Position {
        avg_entry: Price(Decimal::from(100)),
        ..pos_with_size(&symbol, Decimal::one())
    };
    let actions = s.on_event(
        &ctx(&symbol, &snapshot, &position),
        &MarketEvent::BookUpdate {
            snapshot: snapshot.clone(),
        },
    );
    let asks: Vec<Decimal> = actions
        .iter()
        .filter_map(|a| match a {
            Action::Quote(q) if q.side == Side::Ask => Some(q.price.0),
            _ => None,
        })
        .collect();
    // 100 + 3_000_000_000 x 0.000001.
    assert_eq!(asks, vec![Decimal::from(3_100)]);
}

/// The quotes of a strategy in tick mode with a cap of 1000, for a position of this size at
/// an average of 50, on a book of 100 / 110.
fn quoted_in_tick_mode(size: i64, event: fn(&Snapshot) -> MarketEvent) -> Vec<(Side, Decimal)> {
    let symbol = sym();
    let snapshot = book(&symbol, 100, 110, 1);
    let mut s = strategy();
    s.config.quote_offset_ticks = 0;
    s.config.max_position_usdt = Decimal::from(1_000);
    let position = Position {
        avg_entry: Price(Decimal::from(50)),
        ..pos_with_size(&symbol, Decimal::from(size))
    };
    s.on_event(&ctx(&symbol, &snapshot, &position), &event(&snapshot))
        .iter()
        .filter_map(|a| match a {
            Action::Quote(q) => Some((q.side, q.price.0)),
            _ => None,
        })
        .collect()
}

#[test]
fn capped_position_is_only_reduced() {
    let update = |snapshot: &Snapshot| MarketEvent::BookUpdate {
        snapshot: snapshot.clone(),
    };
    let heartbeat = |snapshot: &Snapshot| MarketEvent::Heartbeat { ts: snapshot.ts };
    for event in [update as fn(&Snapshot) -> MarketEvent, heartbeat] {
        assert_eq!(quoted_in_tick_mode(10, event), vec![(Side::Ask, Decimal::from(110))]);
        // A short of 10 is worth 1050 on the book. Its bid is held out a tick below the
        // average, and what lies halfway to that is no reason to sell more.
        assert_eq!(quoted_in_tick_mode(-10, event), vec![(Side::Bid, Decimal::from(49))]);
        assert_eq!(
            quoted_in_tick_mode(-9, event),
            vec![(Side::Bid, Decimal::from(49)), (Side::Ask, Decimal::from(110))]
        );
    }
}

#[test]
fn capped_position_is_only_reduced_after_a_rejection() {
    let symbol = sym();
    let snapshot = book(&symbol, 100, 110, 1);
    let mut s = strategy();
    s.config.quote_offset_ticks = 0;
    s.config.max_position_usdt = Decimal::from(1_000);
    let position = Position {
        avg_entry: Price(Decimal::from(50)),
        ..pos_with_size(&symbol, Decimal::from(-10))
    };
    let refused = QuoteIntent {
        symbol: symbol.clone(),
        side: Side::Ask,
        price: Price(Decimal::from(110)),
        size: Size(Decimal::one()),
        tif: TimeInForce::PostOnly,
        kind: QuoteKind::Point,
    };
    let actions = s.on_quote_rejected(&ctx(&symbol, &snapshot, &position), &refused, "Post Only");
    assert_eq!(actions.len(), 1);
    assert!(matches!(&actions[0], Action::Quote(q) if q.side == Side::Bid));
}
