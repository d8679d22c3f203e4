use tikr_strategy::Decimal;
use tikr_strategy::avellaneda_stoikov::{AvellanedaStoikov, AvellanedaStoikovConfig};
use tikr_strategy::market::{
    Asset, Level, MarketEvent, MarketKind, Notional, Position, Price, Side, SignedSize, Size,
    Snapshot, Symbol, Timestamp, VenueId,
};
use tikr_strategy::strategy::{Action, Strategy, StrategyContext};
use tikr_strategy::volatility::{VolatilityReading, WARMUP_COUNT};

fn dec(text: &str) -> Decimal {
    let parsed = rust_decimal::Decimal::from_str_exact(text).unwrap();
    Decimal::from_i128_with_scale(parsed.mantissa(), parsed.scale())
}

fn plus(a: Decimal, b: Decimal) -> Decimal {
    a.checked_add(b).unwrap()
}

fn minus(a: Decimal, b: Decimal) -> Decimal {
    a.checked_sub(b).unwrap()
}

fn times(a: Decimal, b: Decimal) -> Decimal {
    a.checked_mul(b).unwrap()
}

fn over(a: Decimal, b: Decimal) -> Decimal {
    a.checked_div(b).unwrap()
}

fn make_symbol() -> Symbol {
    Symbol {
        base: Asset::new("BTC"),
        quote: Asset::new("USDT"),
        venue: VenueId::new("test"),
        kind: MarketKind::Spot,
    }
}

fn make_position(symbol: &Symbol, size: Decimal) -> Position {
    Position {
        symbol: symbol.clone(),
        size: SignedSize(size),
        avg_entry: Price(Decimal::zero()),
        realized_pnl: Notional(Decimal::zero()),
    }
}

fn make_book(symbol: &Symbol, bid: Decimal, ask: Decimal, ts: u64) -> Snapshot {
    Snapshot {
        symbol: symbol.clone(),
        bids: vec![Level {
            price: Price(bid),
            size: Size(Decimal::from(1)),
        }],
        asks: vec![Level {
            price: Price(ask),
            size: Size(Decimal::from(1)),
        }],
        ts: Timestamp(ts),
    }
}

fn make_ctx<'a>(
    symbol: &'a Symbol,
    position: &'a Position,
    book: &'a Snapshot,
) -> StrategyContext<'a> {
    StrategyContext {
        symbol,
        now: book.ts,
        position,
        recent_fills: &[],
        latest_book: book,
        open_quotes: &[],
        recent_liqs: &[],
    }
}

fn reading(samples_seen: u32) -> VolatilityReading {
    VolatilityReading {
        var: dec("0.0001"),
        samples_seen,
    }
}

fn default_config() -> AvellanedaStoikovConfig {
    AvellanedaStoikovConfig {
        gamma: dec("0.1"),
        base_spread_bps: 5,
        horizon_sec: 3600,
        size_per_quote: Size(Decimal::from(1)),
        min_requote_interval_ms: 1000,
        level_step_bps: 10,
        initial_var: dec("0.0001"),
    }
}

/// Run N BookUpdates against the strategy to walk it through warmup.
/// Returns the actions emitted on the (N+1)-th call (post-warmup), with
/// position + a fresh book at the given mid.
fn warmup_and_emit(
    strategy: &mut AvellanedaStoikov,
    symbol: &Symbol,
    position: &Position,
    warmup_calls: u32,
    final_bid: Decimal,
    final_ask: Decimal,
    base_ts_ns: u64,
) -> Vec<Action> {
    for i in 0..warmup_calls {
        let bid = plus(Decimal::from(100), over(Decimal::from(i as i64), Decimal::from(1000)));
        let ask = plus(bid, Decimal::one());
        let book = make_book(symbol, bid, ask, base_ts_ns + (i as u64) * 1_000_000_000);
        let ctx = make_ctx(symbol, position, &book);
        strategy.set_reading(reading(i));
        let _ = strategy.on_event(
            &ctx,
            &MarketEvent::BookUpdate {
                snapshot: book.clone(),
            },
        );
    }
    let final_book = make_book(
        symbol,
        final_bid,
        final_ask,
        base_ts_ns + warmup_calls as u64 * 1_000_000_000,
    );
    let ctx = make_ctx(symbol, position, &final_book);
    strategy.set_reading(reading(warmup_calls));
    strategy.on_event(
        &ctx,
        &MarketEvent::BookUpdate {
            snapshot: final_book.clone(),
        },
    )
}

#[test]
fn avellaneda_stoikov_warmup_returns_empty() {
    let sym = make_symbol();
    let pos = make_position(&sym, Decimal::zero());
    let mut strat = AvellanedaStoikov::new(default_config());

    // First 30 calls: samples_seen ranges 0..=29 after the call. All empty.
    for i in 0..WARMUP_COUNT {
        let bid = plus(Decimal::from(100), over(Decimal::from(i as i64), Decimal::from(1000)));
        let ask = plus(bid, Decimal::one());
        let book = make_book(&sym, bid, ask, (i as u64) * 1_000_000_000);
        let ctx = make_ctx(&sym, &pos, &book);
        strat.set_reading(reading(i));
        let actions = strat.on_event(
            &ctx,
            &MarketEvent::BookUpdate {
                snapshot: book.clone(),
            },
        );
        assert!(
            actions.is_empty(),
            "call {i} should return empty during warmup, got {actions:?}"
        );
    }
    // 31st call: samples_seen becomes WARMUP_COUNT → quotes fire.
    let book = make_book(
        &sym,
        Decimal::from(100),
        Decimal::from(101),
        (WARMUP_COUNT as u64) * 1_000_000_000,
    );
    let ctx = make_ctx(&sym, &pos, &book);
    strat.set_reading(reading(WARMUP_COUNT));
    let actions = strat.on_event(
        &ctx,
        &MarketEvent::BookUpdate {
            snapshot: book.clone(),
        },
    );
    assert!(!actions.is_empty());
}

#[test]
fn avellaneda_stoikov_flat_inventory_symmetric_quotes() {
    let sym = make_symbol();
    let pos = make_position(&sym, Decimal::zero());
    let mut strat = AvellanedaStoikov::new(default_config());
    let actions = warmup_and_emit(
        &mut strat,
        &sym,
        &pos,
        WARMUP_COUNT,
        Decimal::from(100),
        Decimal::from(101),
        0,
    );
    assert_eq!(actions.len(), 3);
    assert!(matches!(actions[0], Action::CancelAll));
    let mid = over(plus(Decimal::from(100), Decimal::from(101)), Decimal::from(2));
    let bid_price = match &actions[1] {
        Action::Quote(q) => q.price.0,
        _ => panic!("expected Quote in actions[1]"),
    };
    let ask_price = match &actions[2] {
        Action::Quote(q) => q.price.0,
        _ => panic!("expected Quote in actions[2]"),
    };
    assert_eq!(minus(mid, bid_price).abs(), minus(ask_price, mid).abs());
}

#[test]
fn post_warmup_quotes_at_reservation_skew() {
    let sym = make_symbol();
    let pos = make_position(&sym, Decimal::from(5));
    let mut strat = AvellanedaStoikov::new(default_config());
    let actions = warmup_and_emit(
        &mut strat,
        &sym,
        &pos,
        WARMUP_COUNT,
        Decimal::from(100),
        Decimal::from(101),
        0,
    );
    assert_eq!(actions.len(), 3);
    let mid = over(plus(Decimal::from(100), Decimal::from(101)), Decimal::from(2));
    let bid_price = match &actions[1] {
        Action::Quote(q) => q.price.0,
        _ => panic!("expected Quote in actions[1]"),
    };
    let ask_price = match &actions[2] {
        Action::Quote(q) => q.price.0,
        _ => panic!("expected Quote in actions[2]"),
    };
    let bid_offset = minus(mid, bid_price);
    let ask_offset = minus(ask_price, mid);
    assert_ne!(bid_offset, ask_offset);
    // Long inventory → r < mid → bid offset is larger than ask offset.
    assert!(
        bid_offset > ask_offset,
        "expected bid_offset > ask_offset (long pos skews quotes), got bid={bid_offset:?} ask={ask_offset:?}"
    );
}

#[test]
fn avellaneda_stoikov_requote_gated_by_interval() {
    let sym = make_symbol();
    let pos = make_position(&sym, Decimal::zero());
    let mut cfg = default_config();
    cfg.min_requote_interval_ms = 10_000;
    let mut strat = AvellanedaStoikov::new(cfg);

    let warmup_end_ts = WARMUP_COUNT as u64 * 1_000_000_000;
    let actions = warmup_and_emit(
        &mut strat,
        &sym,
        &pos,
        WARMUP_COUNT,
        Decimal::from(100),
        Decimal::from(101),
        0,
    );
    assert!(!actions.is_empty(), "first post-warmup call should quote");

    // 1ns later — well within 10s interval.
    let book2 = make_book(
        &sym,
        Decimal::from(100),
        Decimal::from(101),
        warmup_end_ts + 1,
    );
    let ctx2 = make_ctx(&sym, &pos, &book2);
    strat.set_reading(reading(WARMUP_COUNT + 1));
    let actions2 = strat.on_event(
        &ctx2,
        &MarketEvent::BookUpdate {
            snapshot: book2.clone(),
        },
    );
    assert!(
        actions2.is_empty(),
        "within-interval requote should be empty, got {actions2:?}"
    );

    // 11s later — past interval.
    let book3 = make_book(
        &sym,
        Decimal::from(100),
        Decimal::from(101),
        warmup_end_ts + 11_000_000_000,
    );
    let ctx3 = make_ctx(&sym, &pos, &book3);
    strat.set_reading(reading(WARMUP_COUNT + 2));
    let actions3 = strat.on_event(
        &ctx3,
        &MarketEvent::BookUpdate {
            snapshot: book3.clone(),
        },
    );
    assert!(
        !actions3.is_empty(),
        "post-interval requote should fire, got empty"
    );
}

#[test]
fn trade_event_returns_empty() {
    let sym = make_symbol();
    let pos = make_position(&sym, Decimal::zero());
    let mut strat = AvellanedaStoikov::new(default_config());
    let _ = warmup_and_emit(
        &mut strat,
        &sym,
        &pos,
        WARMUP_COUNT,
        Decimal::from(100),
        Decimal::from(101),
        0,
    );
    let book = make_book(
        &sym,
        Decimal::from(100),
        Decimal::from(101),
        100_000_000_000,
    );
    let ctx = make_ctx(&sym, &pos, &book);
    let trade = MarketEvent::Trade {
        symbol: sym.clone(),
        price: Price(Decimal::from(100)),
        size: Size(Decimal::from(1)),
        side: Side::Bid,
        ts: Timestamp(100_000_000_000),
    };
    let actions = strat.on_event(&ctx, &trade);
    assert!(actions.is_empty());
}

#[test]
fn avellaneda_stoikov_half_spread_is_base_spread_bps_of_mid() {
    let sym = make_symbol();
    let pos = make_position(&sym, Decimal::zero());
    let mut cfg = default_config();
    cfg.base_spread_bps = 5;
    let mut strat = AvellanedaStoikov::new(cfg);

    // Use mid = 100.5 (bid=100, ask=101).
    let final_bid = Decimal::from(100);
    let final_ask = Decimal::from(101);
    let mid = over(plus(final_bid, final_ask), Decimal::from(2)); // 100.5

    let actions = warmup_and_emit(
        &mut strat,
        &sym,
        &pos,
        WARMUP_COUNT,
        final_bid,
        final_ask,
        0,
    );
    assert_eq!(actions.len(), 3);
    let bid_price = match &actions[1] {
        Action::Quote(q) => q.price.0,
        _ => panic!("expected Quote"),
    };
    let ask_price = match &actions[2] {
        Action::Quote(q) => q.price.0,
        _ => panic!("expected Quote"),
    };
    // With flat inventory (q=0): r = mid, so bid = mid - delta, ask = mid + delta.
    // delta = mid * 5 / 10_000 = 100.5 * 0.0005 = 0.05025
    let expected_delta = times(mid, dec("0.0005"));
    let actual_delta = minus(ask_price, mid).abs();
    let diff = minus(actual_delta, expected_delta).abs();
    assert!(
        diff < dec("0.0001"),
        "expected half-spread ≈ {expected_delta:?}, got {actual_delta:?} (diff={diff:?})"
    );
    // Bid and ask should be symmetric around mid (flat inventory).
    assert_eq!(minus(mid, bid_price).abs(), minus(ask_price, mid).abs());
}

#[test]
fn reservation_scales_with_the_horizon() {
    let mid = Decimal::from(100);
    let at = |q: i64, horizon_sec: u64| {
        let cfg = AvellanedaStoikovConfig {
            horizon_sec,
            ..default_config()
        };
        AvellanedaStoikov::try_reservation(&cfg, mid, Decimal::from(q), dec("0.0001")).unwrap()
    };
    assert!(at(5, 3600) < at(5, 60));
    assert!(at(5, 60) < mid);
    assert!(at(-5, 60) > mid);
    assert_eq!(at(0, 3600), mid);
}

#[test]
fn reading_is_kept() {
    let mut strat = AvellanedaStoikov::new(default_config());
    assert_eq!((strat.current_var(), strat.samples_seen()), (dec("0.0001"), 0));
    strat.set_reading(VolatilityReading {
        var: dec("0.5"),
        samples_seen: 7,
    });
    assert_eq!((strat.current_var(), strat.samples_seen()), (dec("0.5"), 7));
}
