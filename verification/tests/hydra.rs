use tikr_strategy::Decimal;
use tikr_strategy::hydra::{Holding, Hydra, HydraConfig, Phase};
use tikr_strategy::market::{
    Asset, Level, MarketEvent, MarketKind, Notional, Position, Price, Side, SignedSize, Size,
    Snapshot, Symbol, TimeInForce, Timestamp, VenueId,
};
use tikr_strategy::strategy::{Action, Strategy, StrategyContext};

fn dec(text: &str) -> Decimal {
    let parsed = rust_decimal::Decimal::from_str_exact(text).unwrap();
    Decimal::from_i128_with_scale(parsed.mantissa(), parsed.scale())
}

fn sym() -> Symbol {
    Symbol {
        base: Asset::new("BTC"),
        quote: Asset::new("USDT"),
        venue: VenueId::new("test"),
        kind: MarketKind::Perp,
    }
}

fn cfg() -> HydraConfig {
    HydraConfig {
        notional_per_order: Decimal::from(100),
        tick_size: dec("0.1"),
        step_size: dec("0.001"),
        min_notional: Decimal::zero(),
        entry_offset_bps: 10,
        pyramid_step_bps: 20,
        pyramid_max_adds: 2,
        dca_step_bps: 25,
        dca_max_adds: 2,
        tp_bps_from_avg: 30,
        sl_bps_from_first: 100,
        max_position_usdt: Decimal::from(500),
        add_cooldown_ms: 0,
    }
}

fn snap(bid: i64, ask: i64, ts_ns: u64) -> Snapshot {
    Snapshot {
        symbol: sym(),
        bids: vec![Level {
            price: Price(Decimal::from(bid)),
            size: Size(Decimal::from(1)),
        }],
        asks: vec![Level {
            price: Price(Decimal::from(ask)),
            size: Size(Decimal::from(1)),
        }],
        ts: Timestamp(ts_ns),
    }
}

fn flat_ctx<'a>(symbol: &'a Symbol, snapshot: &'a Snapshot, ts_ns: u64) -> StrategyContext<'a> {
    StrategyContext {
        symbol,
        now: Timestamp(ts_ns),
        position: leak_pos(Position {
            symbol: symbol.clone(),
            size: SignedSize(Decimal::zero()),
            avg_entry: Price(Decimal::zero()),
            realized_pnl: Notional(Decimal::zero()),
        }),
        recent_fills: &[],
        latest_book: snapshot,
        open_quotes: &[],
        recent_liqs: &[],
    }
}

fn long_ctx<'a>(
    symbol: &'a Symbol,
    snapshot: &'a Snapshot,
    size: Decimal,
    avg_entry: Decimal,
    ts_ns: u64,
) -> StrategyContext<'a> {
    StrategyContext {
        symbol,
        now: Timestamp(ts_ns),
        position: leak_pos(Position {
            symbol: symbol.clone(),
            size: SignedSize(size),
            avg_entry: Price(avg_entry),
            realized_pnl: Notional(Decimal::zero()),
        }),
        recent_fills: &[],
        latest_book: snapshot,
        open_quotes: &[],
        recent_liqs: &[],
    }
}

fn leak_pos(p: Position) -> &'static Position {
    Box::leak(Box::new(p))
}

#[test]
fn idle_places_straddle_and_cancels() {
    let s_sym = sym();
    let mut h = Hydra::new(cfg());
    let s = snap(99_990, 100_010, 1_000_000_000);
    let ctx = flat_ctx(&s_sym, &s, 1_000_000_000);
    let actions = h.on_event(&ctx, &MarketEvent::BookUpdate { snapshot: s.clone() });
    // CancelAll + 2 quotes (Bid + Ask) expected.
    assert!(matches!(actions[0], Action::CancelAll));
    let quotes: Vec<_> = actions
        .iter()
        .filter_map(|a| match a {
            Action::Quote(q) => Some(q),
            _ => None,
        })
        .collect();
    assert_eq!(quotes.len(), 2);
    // Bid below mid, Ask above mid.
    let bid = quotes.iter().find(|q| q.side == Side::Bid).unwrap();
    let ask = quotes.iter().find(|q| q.side == Side::Ask).unwrap();
    assert!(bid.price.0 < Decimal::from(100_000));
    assert!(ask.price.0 > Decimal::from(100_000));
    assert_eq!(bid.tif, TimeInForce::PostOnly);
    assert_eq!(ask.tif, TimeInForce::PostOnly);
}

#[test]
fn straddle_not_re_placed_on_second_event() {
    let s_sym = sym();
    let mut h = Hydra::new(cfg());
    let s = snap(99_990, 100_010, 1);
    let ctx = flat_ctx(&s_sym, &s, 1);
    let _ = h.on_event(&ctx, &MarketEvent::BookUpdate { snapshot: s.clone() });
    let actions = h.on_event(&ctx, &MarketEvent::BookUpdate { snapshot: s.clone() });
    // No-op until we transition out of Idle/straddle_placed.
    assert!(actions.is_empty());
}

#[test]
fn first_fill_locks_long_phase() {
    let s_sym = sym();
    let mut h = Hydra::new(cfg());
    let s = snap(99_990, 100_010, 1);
    let ctx = flat_ctx(&s_sym, &s, 1);
    let _ = h.on_event(&ctx, &MarketEvent::BookUpdate { snapshot: s.clone() });
    // Simulate Bid fill: ctx.position now reflects a long.
    let ctx2 = long_ctx(
        &s_sym,
        &s,
        dec("0.001"),
        Decimal::from(99_990),
        2,
    );
    let actions = h.on_event(&ctx2, &MarketEvent::Heartbeat { ts: Timestamp(2) });
    // Should cancel the other leg (the resting ask).
    assert!(actions.iter().any(|a| matches!(a, Action::CancelAll)));
    // Phase should be Holding (long).
    match h.phase {
        Phase::Holding(Holding {
            side_long,
            first_entry_price,
            ..
        }) => {
            assert!(side_long);
            assert_eq!(first_entry_price, Decimal::from(99_990));
        }
        _ => panic!("expected Holding phase"),
    }
}

#[test]
fn pyramid_add_fires_when_favorable_drift_crosses_band() {
    let s_sym = sym();
    let mut h = Hydra::new(cfg());
    let s0 = snap(99_990, 100_010, 1);
    let ctx0 = flat_ctx(&s_sym, &s0, 1);
    let _ = h.on_event(&ctx0, &MarketEvent::BookUpdate { snapshot: s0.clone() });
    // Long fill at 99990.
    let pos_size = dec("0.001");
    let ctx1 = long_ctx(&s_sym, &s0, pos_size, Decimal::from(99_990), 2);
    let _ = h.on_event(&ctx1, &MarketEvent::Heartbeat { ts: Timestamp(2) });
    // Market moves favorable by 25 bps (> pyramid_step_bps=20):
    // mid = 99990 × 1.0025 ≈ 100240.
    let s2 = snap(100_235, 100_245, 3);
    let ctx2 = long_ctx(&s_sym, &s2, pos_size, Decimal::from(99_990), 3);
    let actions = h.on_event(&ctx2, &MarketEvent::BookUpdate { snapshot: s2.clone() });
    // Should emit one IOC Bid (taker add at touch).
    let quotes: Vec<_> = actions
        .iter()
        .filter_map(|a| match a {
            Action::Quote(q) => Some(q),
            _ => None,
        })
        .collect();
    assert_eq!(quotes.len(), 1);
    assert_eq!(quotes[0].side, Side::Bid);
    assert_eq!(quotes[0].tif, TimeInForce::IOC);
}

#[test]
fn dca_add_fires_when_adverse_drift_crosses_band() {
    let s_sym = sym();
    let mut h = Hydra::new(cfg());
    let s0 = snap(99_990, 100_010, 1);
    let ctx0 = flat_ctx(&s_sym, &s0, 1);
    let _ = h.on_event(&ctx0, &MarketEvent::BookUpdate { snapshot: s0.clone() });
    let pos_size = dec("0.001");
    let ctx1 = long_ctx(&s_sym, &s0, pos_size, Decimal::from(99_990), 2);
    let _ = h.on_event(&ctx1, &MarketEvent::Heartbeat { ts: Timestamp(2) });
    // Market drops 30 bps (> dca_step_bps=25): mid ≈ 99690.
    let s2 = snap(99_685, 99_695, 3);
    let ctx2 = long_ctx(&s_sym, &s2, pos_size, Decimal::from(99_990), 3);
    let actions = h.on_event(&ctx2, &MarketEvent::BookUpdate { snapshot: s2.clone() });
    let quotes: Vec<_> = actions
        .iter()
        .filter_map(|a| match a {
            Action::Quote(q) => Some(q),
            _ => None,
        })
        .collect();
    assert_eq!(quotes.len(), 1);
    assert_eq!(quotes[0].side, Side::Bid);
    assert_eq!(quotes[0].tif, TimeInForce::IOC);
}

#[test]
fn sl_anchored_to_first_entry_not_avg() {
    let s_sym = sym();
    // First fill at 100000, then a 50-bps DCA drop drags avg lower.
    // SL bps=100 from FIRST (=100000) → trigger at 99000.
    // If SL were anchored on avg (=~99750), trigger would be at
    // ~99003 — basically the same; pick widely different numbers.
    let mut cfg = cfg();
    cfg.sl_bps_from_first = 50; // tight enough for the test
    let mut h = Hydra::new(cfg);
    let s0 = snap(100_000, 100_001, 1);
    let ctx0 = flat_ctx(&s_sym, &s0, 1);
    let _ = h.on_event(&ctx0, &MarketEvent::BookUpdate { snapshot: s0.clone() });
    // First long fill at 100000.
    let s1 = snap(99_950, 99_955, 2);
    let pos_size = dec("0.001");
    let ctx1 = long_ctx(&s_sym, &s1, pos_size, Decimal::from(100_000), 2);
    let _ = h.on_event(&ctx1, &MarketEvent::BookUpdate { snapshot: s1.clone() });
    // Big drop: mid 99500 → 50 bps from 100000 first.
    let s2 = snap(99_495, 99_505, 3);
    // After hypothetical DCA, avg might be 99750 — pretend so.
    let ctx2 = long_ctx(
        &s_sym,
        &s2,
        dec("0.002"),
        Decimal::from(99_750),
        3,
    );
    let actions = h.on_event(&ctx2, &MarketEvent::BookUpdate { snapshot: s2.clone() });
    // SL should fire because drift_from_first_bps ≈ -50.
    let quotes: Vec<_> = actions
        .iter()
        .filter_map(|a| match a {
            Action::Quote(q) => Some(q),
            _ => None,
        })
        .collect();
    assert_eq!(quotes.len(), 1, "expected one IOC flatten");
    assert_eq!(quotes[0].side, Side::Ask);
    assert_eq!(quotes[0].tif, TimeInForce::IOC);
}

#[test]
fn tp_limit_placed_on_first_fill() {
    // V1 maker-exit: on Idle→Holding the strategy emits CancelAll
    // + a PostOnly close-side limit at `avg_entry × (1 + tp_bps)`.
    // No IOC flatten is emitted; the limit fills naturally when
    // the book touches it.
    let s_sym = sym();
    let mut h = Hydra::new(cfg());
    let s0 = snap(100_000, 100_001, 1);
    let ctx0 = flat_ctx(&s_sym, &s0, 1);
    let _ = h.on_event(&ctx0, &MarketEvent::BookUpdate { snapshot: s0.clone() });
    let pos_size = dec("0.001");
    let ctx1 = long_ctx(&s_sym, &s0, pos_size, Decimal::from(100_000), 2);
    let actions = h.on_event(&ctx1, &MarketEvent::BookUpdate { snapshot: s0.clone() });
    // Expect [CancelAll, Quote(Ask PostOnly @ 100_000 × 1.0030)].
    assert!(actions.iter().any(|a| matches!(a, Action::CancelAll)));
    let quotes: Vec<_> = actions
        .iter()
        .filter_map(|a| match a {
            Action::Quote(q) => Some(q),
            _ => None,
        })
        .collect();
    assert_eq!(quotes.len(), 1, "expected one PostOnly TP limit");
    assert_eq!(quotes[0].side, Side::Ask);
    assert_eq!(quotes[0].tif, TimeInForce::PostOnly);
    // TP price = 100_000 × 1.003 = 100_300.
    assert_eq!(quotes[0].price.0, Decimal::from(100_300));
}

#[test]
fn tp_refreshes_when_avg_entry_shifts() {
    // After a DCA add the rolling avg_entry drops (for a long), so
    // the TP price moves down too. Verify the strategy re-quotes.
    // Use a high `add_cooldown_ms` so the simulated post-fill
    // event isn't itself eligible to fire ANOTHER add.
    let s_sym = sym();
    let mut c = cfg();
    c.add_cooldown_ms = 60_000;
    // Disable DCA so the post-fill event with adverse drift
    // doesn't try to fire yet another add.
    c.dca_max_adds = 0;
    c.pyramid_max_adds = 0;
    let mut h = Hydra::new(c);
    let s0 = snap(100_000, 100_001, 1);
    let ctx0 = flat_ctx(&s_sym, &s0, 1);
    let _ = h.on_event(&ctx0, &MarketEvent::BookUpdate { snapshot: s0.clone() });
    let pos_size = dec("0.001");
    let ctx1 = long_ctx(&s_sym, &s0, pos_size, Decimal::from(100_000), 2);
    let _ = h.on_event(&ctx1, &MarketEvent::BookUpdate { snapshot: s0.clone() });
    // Pretend an add has landed: avg_entry slid to 99_500,
    // size doubled.
    let s2 = snap(99_490, 99_500, 3);
    let ctx2 = long_ctx(
        &s_sym,
        &s2,
        dec("0.002"),
        Decimal::from(99_500),
        3,
    );
    let actions = h.on_event(&ctx2, &MarketEvent::BookUpdate { snapshot: s2.clone() });
    let quotes: Vec<_> = actions
        .iter()
        .filter_map(|a| match a {
            Action::Quote(q) => Some(q),
            _ => None,
        })
        .collect();
    // Refresh = CancelAll + new TP at 99_500 × 1.003 = 99_798.5
    // (tick-rounded to 99_798.5 with tick=0.1 → 99_798.5).
    assert!(actions.iter().any(|a| matches!(a, Action::CancelAll)));
    assert_eq!(quotes.len(), 1);
    assert_eq!(quotes[0].side, Side::Ask);
    assert_eq!(quotes[0].tif, TimeInForce::PostOnly);
    let expected = dec("99798.5");
    assert_eq!(quotes[0].price.0, expected);
}

#[test]
fn cap_blocks_add_when_breached() {
    let s_sym = sym();
    let mut c = cfg();
    c.max_position_usdt = Decimal::from(110); // capped just above one fill
    let mut h = Hydra::new(c);
    let s0 = snap(99_990, 100_010, 1);
    let ctx0 = flat_ctx(&s_sym, &s0, 1);
    let _ = h.on_event(&ctx0, &MarketEvent::BookUpdate { snapshot: s0.clone() });
    let pos_size = dec("0.001");
    let ctx1 = long_ctx(&s_sym, &s0, pos_size, Decimal::from(99_990), 2);
    let _ = h.on_event(&ctx1, &MarketEvent::Heartbeat { ts: Timestamp(2) });
    let s2 = snap(100_235, 100_245, 3);
    let ctx2 = long_ctx(&s_sym, &s2, pos_size, Decimal::from(99_990), 3);
    let actions = h.on_event(&ctx2, &MarketEvent::BookUpdate { snapshot: s2.clone() });
    // Cap blocks the add → no Quote actions emitted.
    let quotes: usize = actions
        .iter()
        .filter(|a| matches!(a, Action::Quote(_)))
        .count();
    assert_eq!(quotes, 0);
}

#[test]
fn position_zero_returns_to_idle() {
    let s_sym = sym();
    let mut h = Hydra::new(cfg());
    let s0 = snap(99_990, 100_010, 1);
    let ctx0 = flat_ctx(&s_sym, &s0, 1);
    let _ = h.on_event(&ctx0, &MarketEvent::BookUpdate { snapshot: s0.clone() });
    let pos_size = dec("0.001");
    let ctx1 = long_ctx(&s_sym, &s0, pos_size, Decimal::from(99_990), 2);
    let _ = h.on_event(&ctx1, &MarketEvent::Heartbeat { ts: Timestamp(2) });
    // Now flat (TP/SL/external close).
    let ctx2 = flat_ctx(&s_sym, &s0, 3);
    let actions = h.on_event(&ctx2, &MarketEvent::Heartbeat { ts: Timestamp(3) });
    assert!(actions.iter().any(|a| matches!(a, Action::CancelAll)));
    assert_eq!(h.phase, Phase::Idle);
}

#[test]
fn band_counters_stop_at_their_limits() {
    let s_sym = sym();
    let mut h = Hydra::new(HydraConfig {
        max_position_usdt: Decimal::from(1_000_000),
        sl_bps_from_first: 0,
        ..cfg()
    });
    let s0 = snap(99_990, 100_010, 1);
    let _ = h.on_event(
        &flat_ctx(&s_sym, &s0, 1),
        &MarketEvent::BookUpdate { snapshot: s0.clone() },
    );
    let size = dec("0.001");
    let entry = Decimal::from(100_000);
    let mut added = 0;
    for (i, mid) in [100_000i64, 99_700, 99_400, 99_000, 98_000].iter().enumerate() {
        let b = snap(mid - 5, mid + 5, 2 + i as u64);
        let actions = h.on_event(
            &long_ctx(&s_sym, &b, size, entry, 2 + i as u64),
            &MarketEvent::BookUpdate { snapshot: b.clone() },
        );
        let adds = actions
            .iter()
            .filter(|a| matches!(a, Action::Quote(q) if q.side == Side::Bid))
            .count();
        assert!(adds <= 1);
        added += adds;
        let Phase::Holding(held) = h.phase else {
            panic!("expected Holding");
        };
        assert_eq!((held.side_long, held.first_entry_price), (true, entry));
        assert!(held.dca_bands_placed <= 2 && held.pyramid_bands_placed == 0);
    }
    assert_eq!(added, 2);
}

#[test]
fn stop_closes_the_whole_position() {
    let s_sym = sym();
    let mut h = Hydra::new(cfg());
    let s0 = snap(99_990, 100_010, 1);
    let _ = h.on_event(
        &flat_ctx(&s_sym, &s0, 1),
        &MarketEvent::BookUpdate { snapshot: s0.clone() },
    );
    let entry = Decimal::from(100_000);
    let _ = h.on_event(
        &long_ctx(&s_sym, &s0, dec("0.001"), entry, 2),
        &MarketEvent::BookUpdate { snapshot: s0.clone() },
    );
    let low = snap(98_990, 99_000, 3);
    let actions = h.on_event(
        &long_ctx(&s_sym, &low, dec("0.003"), Decimal::from(99_500), 3),
        &MarketEvent::BookUpdate { snapshot: low.clone() },
    );
    match actions.as_slice() {
        [Action::CancelAll, Action::Quote(q)] => {
            assert_eq!((q.side, q.tif), (Side::Ask, TimeInForce::IOC));
            assert_eq!((q.price.0, q.size.0), (Decimal::from(98_990), dec("0.003")));
        }
        other => panic!("expected a stop, got {other:?}"),
    }
    assert_eq!(h.phase, Phase::Idle);
}
