use tikr_strategy::Decimal;
use tikr_strategy::liq_fade::{LiqFade, LiqFadeConfig, LiqFadeState};
use tikr_strategy::market::{
    Asset, Fill, Level, LiqEvent, MarketEvent, MarketKind, Notional, Position, Price, QuoteId,
    Side, SignedSize, Size, Snapshot, Symbol, TimeInForce, Timestamp, VenueId,
};
use tikr_strategy::strategy::{Action, Strategy, StrategyContext};

fn dec(text: &str) -> Decimal {
    let parsed = rust_decimal::Decimal::from_str_exact(text).unwrap();
    Decimal::from_i128_with_scale(parsed.mantissa(), parsed.scale())
}

fn sym() -> Symbol {
    Symbol {
        base: Asset::new("BTC"),
        quote: Asset::new("USDT"),
        venue: VenueId::new("test"),
        kind: MarketKind::Perp,
    }
}

fn cfg() -> LiqFadeConfig {
    LiqFadeConfig {
        notional_per_entry: Decimal::from(100),
        tick_size: dec("0.1"),
        step_size: dec("0.001"),
        min_notional: Decimal::zero(),
        max_position_usdt: Decimal::zero(),
        arm_threshold_usdt: Decimal::from(1_000_000),
        arm_dominance: dec("0.5"),
        capitulation_overshoot_bps: 15,
        fade_offset_bps: 5,
        revert_target_bps: 10,
        entry_timeout_secs: 30,
        position_timeout_secs: 120,
        stop_loss_bps: 0,
    }
}

fn snap(bid: i64, ask: i64, ts: u64) -> Snapshot {
    Snapshot {
        symbol: sym(),
        ts: Timestamp(ts),
        bids: vec![Level {
            price: Price(Decimal::from(bid)),
            size: Size(Decimal::one()),
        }],
        asks: vec![Level {
            price: Price(Decimal::from(ask)),
            size: Size(Decimal::one()),
        }],
    }
}

fn ctx<'a>(
    s: &'a Symbol,
    p: &'a Position,
    snap: &'a Snapshot,
    liqs: &'a [LiqEvent],
    ts: u64,
) -> StrategyContext<'a> {
    StrategyContext {
        symbol: s,
        now: Timestamp(ts),
        position: p,
        recent_fills: &[],
        latest_book: snap,
        open_quotes: &[],
        recent_liqs: liqs,
    }
}

fn flat() -> Position {
    Position {
        symbol: sym(),
        size: SignedSize(Decimal::zero()),
        avg_entry: Price(Decimal::zero()),
        realized_pnl: Notional(Decimal::zero()),
    }
}

fn liq(ts: u64, side: Side, notional: i64) -> LiqEvent {
    LiqEvent {
        ts: Timestamp(ts),
        side,
        qty: Size(Decimal::one()),
        price: Price(Decimal::from(100_000)),
        notional: Notional(Decimal::from(notional)),
    }
}

#[test]
fn idle_arms_on_dominant_ask_liq_cluster() {
    let mut f = LiqFade::new(cfg());
    let s = sym();
    let p = flat();
    let liqs = vec![
        liq(1_000_000_000, Side::Ask, 600_000),
        liq(2_000_000_000, Side::Ask, 500_000),
    ];
    let snap = snap(100_000, 100_010, 3_000_000_000);
    let ctx = ctx(&s, &p, &snap, &liqs, 3_000_000_000);
    let actions = f.on_event(
        &ctx,
        &MarketEvent::BookUpdate {
            snapshot: snap.clone(),
        },
    );
    assert!(actions.is_empty());
    assert_eq!(f.state(), LiqFadeState::Armed);
}

#[test]
fn idle_does_not_arm_below_threshold() {
    let mut f = LiqFade::new(cfg());
    let s = sym();
    let p = flat();
    let liqs = vec![liq(1_000_000_000, Side::Ask, 100_000)];
    let snap = snap(100_000, 100_010, 2_000_000_000);
    let ctx = ctx(&s, &p, &snap, &liqs, 2_000_000_000);
    f.on_event(
        &ctx,
        &MarketEvent::BookUpdate {
            snapshot: snap.clone(),
        },
    );
    assert_eq!(f.state(), LiqFadeState::Idle);
}

#[test]
fn idle_does_not_arm_on_balanced_liqs() {
    // Bid + Ask both > threshold → no dominant side → no arm.
    let mut f = LiqFade::new(cfg());
    let s = sym();
    let p = flat();
    let liqs = vec![
        liq(1_000_000_000, Side::Ask, 1_200_000),
        liq(1_500_000_000, Side::Bid, 1_200_000),
    ];
    let snap = snap(100_000, 100_010, 2_000_000_000);
    let ctx = ctx(&s, &p, &snap, &liqs, 2_000_000_000);
    f.on_event(
        &ctx,
        &MarketEvent::BookUpdate {
            snapshot: snap.clone(),
        },
    );
    assert_eq!(f.state(), LiqFadeState::Idle);
}

#[test]
fn armed_to_capitulation_posts_bid_below_book() {
    let mut f = LiqFade::new(cfg());
    let s = sym();
    let p = flat();
    // First tick: arm on Ask cluster, mid = 100_005.
    let liqs = vec![liq(1_000_000_000, Side::Ask, 1_500_000)];
    let s1 = snap(100_000, 100_010, 2_000_000_000);
    let c1 = ctx(&s, &p, &s1, &liqs, 2_000_000_000);
    f.on_event(
        &c1,
        &MarketEvent::BookUpdate {
            snapshot: s1.clone(),
        },
    );
    assert_eq!(f.state(), LiqFadeState::Armed);

    // Second tick: price dumps 20bps (well past 15bps capitulation).
    // mid = 99_800, well below 100_005 × (1 - 0.0015) = 99_855.
    let s2 = snap(99_795, 99_805, 3_000_000_000);
    let liqs_empty: Vec<LiqEvent> = vec![];
    let c2 = ctx(&s, &p, &s2, &liqs_empty, 3_000_000_000);
    let actions = f.on_event(
        &c2,
        &MarketEvent::BookUpdate {
            snapshot: s2.clone(),
        },
    );
    assert_eq!(f.state(), LiqFadeState::Capitulation);
    assert_eq!(actions.len(), 1);
    let Action::Quote(intent) = &actions[0] else {
        panic!("expected Quote");
    };
    assert_eq!(intent.side, Side::Bid);
    // Posted `fade_offset_bps = 5` BELOW best_bid 99_795.
    // 99_795 * (1 - 0.0005) = 99_745.1025
    assert!(intent.price.0 < Price(Decimal::from(99_795)).0);
}

#[test]
fn armed_window_expires_without_capitulation() {
    let mut f = LiqFade::new(cfg());
    let s = sym();
    let p = flat();
    let liqs = vec![liq(1_000_000_000, Side::Ask, 1_500_000)];
    let s1 = snap(100_000, 100_010, 2_000_000_000);
    let c1 = ctx(&s, &p, &s1, &liqs, 2_000_000_000);
    f.on_event(
        &c1,
        &MarketEvent::BookUpdate {
            snapshot: s1.clone(),
        },
    );
    assert_eq!(f.state(), LiqFadeState::Armed);

    // 60 seconds later (>30s entry_timeout) — price hasn't moved →
    // arm expires.
    let s2 = snap(100_000, 100_010, 62_000_000_000);
    let liqs_empty: Vec<LiqEvent> = vec![];
    let c2 = ctx(&s, &p, &s2, &liqs_empty, 62_000_000_000);
    f.on_event(
        &c2,
        &MarketEvent::BookUpdate {
            snapshot: s2.clone(),
        },
    );
    assert_eq!(f.state(), LiqFadeState::Idle);
}

#[test]
fn capitulation_to_holding_on_entry_fill_posts_tp() {
    let mut f = LiqFade::new(cfg());
    let s = sym();
    let p = flat();
    // Arm.
    let liqs = vec![liq(1_000_000_000, Side::Ask, 1_500_000)];
    let s1 = snap(100_000, 100_010, 2_000_000_000);
    let c1 = ctx(&s, &p, &s1, &liqs, 2_000_000_000);
    f.on_event(
        &c1,
        &MarketEvent::BookUpdate {
            snapshot: s1.clone(),
        },
    );
    // Capitulate.
    let s2 = snap(99_795, 99_805, 3_000_000_000);
    let liqs_empty: Vec<LiqEvent> = vec![];
    let c2 = ctx(&s, &p, &s2, &liqs_empty, 3_000_000_000);
    f.on_event(
        &c2,
        &MarketEvent::BookUpdate {
            snapshot: s2.clone(),
        },
    );
    assert_eq!(f.state(), LiqFadeState::Capitulation);

    // Entry fill on Bid.
    let fill = Fill {
        quote_id: QuoteId(1),
        price: Price(Decimal::from(99_750)),
        size: Size(dec("0.001")),
        fee_asset: Asset::new("USDT"),
        fee_amount: Decimal::zero(),
        fee_quote: Notional(Decimal::zero()),
        side: Side::Bid,
        ts: Timestamp(4_000_000_000),
        is_full: true,
        trade_id: None,
    };
    let c3 = ctx(&s, &p, &s2, &liqs_empty, 4_000_000_000);
    let actions = f.on_event(&c3, &MarketEvent::Fill(fill));
    assert_eq!(f.state(), LiqFadeState::Holding);
    // TP order on Ask side.
    assert_eq!(actions.len(), 1);
    let Action::Quote(intent) = &actions[0] else {
        panic!("expected TP Quote");
    };
    assert_eq!(intent.side, Side::Ask);
    // TP price = pre_liq_mid (100_005) × (1 - 10bps/10000) = 99_905.005
    // Below pre_liq_mid by revert_target_bps.
    assert!(intent.price.0 < Price(Decimal::from(100_005)).0);
    assert!(intent.price.0 > Price(Decimal::from(99_795)).0);
}

#[test]
fn capitulation_entry_timeout_cancels_and_resets() {
    let mut f = LiqFade::new(cfg());
    let s = sym();
    let p = flat();
    let liqs = vec![liq(1_000_000_000, Side::Ask, 1_500_000)];
    let s1 = snap(100_000, 100_010, 2_000_000_000);
    let c1 = ctx(&s, &p, &s1, &liqs, 2_000_000_000);
    f.on_event(
        &c1,
        &MarketEvent::BookUpdate {
            snapshot: s1.clone(),
        },
    );
    let s2 = snap(99_795, 99_805, 3_000_000_000);
    let liqs_empty: Vec<LiqEvent> = vec![];
    let c2 = ctx(&s, &p, &s2, &liqs_empty, 3_000_000_000);
    f.on_event(
        &c2,
        &MarketEvent::BookUpdate {
            snapshot: s2.clone(),
        },
    );
    assert_eq!(f.state(), LiqFadeState::Capitulation);

    // 60s later (>30s entry_timeout, no fill).
    let s3 = snap(99_795, 99_805, 63_000_000_000);
    let c3 = ctx(&s, &p, &s3, &liqs_empty, 63_000_000_000);
    let actions = f.on_event(
        &c3,
        &MarketEvent::BookUpdate {
            snapshot: s3.clone(),
        },
    );
    assert_eq!(f.state(), LiqFadeState::Idle);
    assert!(matches!(actions.as_slice(), [Action::CancelAll]));
}

#[test]
fn holding_position_time_stop_ioc_flattens() {
    let mut f = LiqFade::new(cfg());
    let s = sym();
    // Arm + capitulate + fill manually by driving the state machine.
    let liqs = vec![liq(1_000_000_000, Side::Ask, 1_500_000)];
    let p0 = flat();
    let s1 = snap(100_000, 100_010, 2_000_000_000);
    let c1 = ctx(&s, &p0, &s1, &liqs, 2_000_000_000);
    f.on_event(
        &c1,
        &MarketEvent::BookUpdate {
            snapshot: s1.clone(),
        },
    );
    let s2 = snap(99_795, 99_805, 3_000_000_000);
    let liqs_empty: Vec<LiqEvent> = vec![];
    let c2 = ctx(&s, &p0, &s2, &liqs_empty, 3_000_000_000);
    f.on_event(
        &c2,
        &MarketEvent::BookUpdate {
            snapshot: s2.clone(),
        },
    );
    let fill = Fill {
        quote_id: QuoteId(2),
        price: Price(Decimal::from(99_750)),
        size: Size(dec("0.001")),
        fee_asset: Asset::new("USDT"),
        fee_amount: Decimal::zero(),
        fee_quote: Notional(Decimal::zero()),
        side: Side::Bid,
        ts: Timestamp(4_000_000_000),
        is_full: true,
        trade_id: None,
    };
    let c3 = ctx(&s, &p0, &s2, &liqs_empty, 4_000_000_000);
    f.on_event(&c3, &MarketEvent::Fill(fill));
    assert_eq!(f.state(), LiqFadeState::Holding);

    // 200s later (>120s position_timeout), still long 0.001 → IOC close.
    let p_long = Position {
        symbol: sym(),
        size: SignedSize(dec("0.001")),
        avg_entry: Price(Decimal::from(99_750)),
        realized_pnl: Notional(Decimal::zero()),
    };
    let s4 = snap(99_700, 99_710, 204_000_000_000);
    let c4 = ctx(&s, &p_long, &s4, &liqs_empty, 204_000_000_000);
    let actions = f.on_event(
        &c4,
        &MarketEvent::BookUpdate {
            snapshot: s4.clone(),
        },
    );
    assert_eq!(f.state(), LiqFadeState::Idle);
    assert_eq!(actions.len(), 2);
    assert!(matches!(actions[0], Action::CancelAll));
    let Action::Quote(intent) = &actions[1] else {
        panic!("expected close Quote");
    };
    assert_eq!(intent.side, Side::Ask);
    assert_eq!(intent.tif, TimeInForce::IOC);
}

#[test]
fn forced_orders_are_counted_once() {
    // One cluster of 600_000 shown three times stays below the threshold.
    let mut f = LiqFade::new(cfg());
    let s = sym();
    let p = flat();
    let liqs = vec![liq(1_000_000_000, Side::Ask, 600_000)];
    for ts in [2_000_000_000u64, 3_000_000_000, 4_000_000_000] {
        let b = snap(100_000, 100_010, ts);
        let _ = f.on_event(
            &ctx(&s, &p, &b, &liqs, ts),
            &MarketEvent::BookUpdate { snapshot: b.clone() },
        );
        assert_eq!(f.state(), LiqFadeState::Idle);
    }
}

#[test]
fn bid_cascade_is_faded_with_an_ask() {
    let mut f = LiqFade::new(cfg());
    let s = sym();
    let p = flat();
    let liqs = vec![liq(1_000_000_000, Side::Bid, 1_500_000)];
    let s1 = snap(100_000, 100_010, 2_000_000_000);
    let _ = f.on_event(
        &ctx(&s, &p, &s1, &liqs, 2_000_000_000),
        &MarketEvent::BookUpdate { snapshot: s1.clone() },
    );
    assert_eq!(f.state(), LiqFadeState::Armed);
    let s2 = snap(100_195, 100_205, 3_000_000_000);
    let actions = f.on_event(
        &ctx(&s, &p, &s2, &[], 3_000_000_000),
        &MarketEvent::BookUpdate { snapshot: s2.clone() },
    );
    assert_eq!(f.state(), LiqFadeState::Capitulation);
    let Action::Quote(entry) = &actions[0] else {
        panic!("expected Quote");
    };
    assert_eq!((entry.side, entry.tif), (Side::Ask, TimeInForce::PostOnly));
    assert!(entry.price.0 > Decimal::from(100_205));
}

#[test]
fn time_stop_on_a_flat_position_goes_idle() {
    let mut f = LiqFade::new(cfg());
    let s = sym();
    let p = flat();
    let liqs = vec![liq(1_000_000_000, Side::Ask, 1_500_000)];
    let s1 = snap(100_000, 100_010, 2_000_000_000);
    let _ = f.on_event(
        &ctx(&s, &p, &s1, &liqs, 2_000_000_000),
        &MarketEvent::BookUpdate { snapshot: s1.clone() },
    );
    let s2 = snap(99_795, 99_805, 3_000_000_000);
    let _ = f.on_event(
        &ctx(&s, &p, &s2, &[], 3_000_000_000),
        &MarketEvent::BookUpdate { snapshot: s2.clone() },
    );
    let fill = Fill {
        quote_id: QuoteId(1),
        price: Price(Decimal::from(99_750)),
        size: Size(dec("0.001")),
        fee_asset: Asset::new("USDT"),
        fee_amount: Decimal::zero(),
        fee_quote: Notional(Decimal::zero()),
        side: Side::Bid,
        ts: Timestamp(4_000_000_000),
        is_full: true,
        trade_id: None,
    };
    let _ = f.on_event(&ctx(&s, &p, &s2, &[], 4_000_000_000), &MarketEvent::Fill(fill));
    assert_eq!(f.state(), LiqFadeState::Holding);
    let late = snap(99_795, 99_805, 204_000_000_000);
    let actions = f.on_event(
        &ctx(&s, &p, &late, &[], 204_000_000_000),
        &MarketEvent::BookUpdate { snapshot: late.clone() },
    );
    assert!(actions.is_empty());
    assert_eq!(f.state(), LiqFadeState::Idle);
}

#[test]
fn forced_orders_of_one_time_all_count() {
    let mut f = LiqFade::new(cfg());
    let s = sym();
    let p = flat();
    let liqs = vec![
        liq(1_000_000_000, Side::Ask, 600_000),
        liq(1_000_000_000, Side::Ask, 500_000),
    ];
    let book = snap(100_000, 100_010, 2_000_000_000);
    let actions = f.on_event(
        &ctx(&s, &p, &book, &liqs, 2_000_000_000),
        &MarketEvent::BookUpdate {
            snapshot: book.clone(),
        },
    );
    assert!(actions.is_empty());
    assert_eq!(f.state(), LiqFadeState::Armed);
    assert_eq!(f.side_sum.entries.len(), 2);
}

#[test]
fn forced_order_that_prints_late_at_a_known_time_counts_once() {
    let mut f = LiqFade::new(cfg());
    let s = sym();
    let p = flat();
    let heartbeat = |f: &mut LiqFade, liqs: &[LiqEvent]| {
        let book = snap(100_000, 100_010, 2_000_000_000);
        let event = MarketEvent::Heartbeat {
            ts: Timestamp(2_000_000_000),
        };
        f.on_event(&ctx(&s, &p, &book, liqs, 2_000_000_000), &event);
        f.side_sum.sum_for(Side::Ask).unwrap()
    };
    let first = liq(1_000_000_000, Side::Ask, 300);
    let second = liq(1_000_000_000, Side::Ask, 200);
    let third = liq(1_500_000_000, Side::Ask, 100);
    assert_eq!(heartbeat(&mut f, &[first.clone()]), Decimal::from(300));
    let both = [first.clone(), second.clone()];
    assert_eq!(heartbeat(&mut f, &both), Decimal::from(500));
    assert_eq!(heartbeat(&mut f, &both), Decimal::from(500));
    assert_eq!(heartbeat(&mut f, &[first, second, third]), Decimal::from(600));
}
