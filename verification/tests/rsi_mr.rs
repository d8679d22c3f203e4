use tikr_strategy::Decimal;
use tikr_strategy::market::{
    Asset, Fill, Level, MarketEvent, MarketKind, Notional, Position, Price, QuoteId, QuoteIntent,
    Side, SignedSize, Size, Snapshot, Symbol, TimeInForce, Timestamp, VenueId,
};
use tikr_strategy::rsi_mr::{Bar, RsiMr, RsiMrConfig};
use tikr_strategy::strategy::{Action, Strategy, StrategyContext};

fn sym() -> Symbol {
    Symbol {
        base: Asset::new("ETH"),
        quote: Asset::new("USDC"),
        venue: VenueId::new("test"),
        kind: MarketKind::Perp,
    }
}

fn cfg() -> RsiMrConfig {
    RsiMrConfig {
        notional_per_order: Decimal::from(50),
        tick_size: Decimal::new(1, 2), // 0.01
        step_size: Decimal::new(1, 3), // 0.001
        min_notional: Decimal::from(5),
        bar_interval_secs: 60,
        max_bars: 64,
        rsi_period: 14,
        rsi_buy_threshold: 25,
        rsi_exit_threshold: 50,
        ker_period: 20,
        ker_max_trending: Decimal::new(4, 1), // 0.4
        vol_zscore_period: 20,
        vol_zscore_min: Decimal::new(15, 1), // 1.5
        atr_period: 14,
        atr_sl_mult: Decimal::from(2),
        atr_tp_mult: Decimal::from(3),
        max_hold_bars: 60,
    }
}

fn pos_flat() -> Position {
    Position {
        symbol: sym(),
        size: SignedSize(Decimal::zero()),
        avg_entry: Price(Decimal::zero()),
        realized_pnl: Notional(Decimal::zero()),
    }
}

fn snap(bid: Decimal, ask: Decimal) -> Snapshot {
    Snapshot {
        symbol: sym(),
        bids: vec![Level {
            price: Price(bid),
            size: Size(Decimal::from(10)),
        }],
        asks: vec![Level {
            price: Price(ask),
            size: Size(Decimal::from(10)),
        }],
        ts: Timestamp(1),
    }
}

fn ctx_for<'a>(
    symbol: &'a Symbol,
    s: &'a Snapshot,
    p: &'a Position,
    open: &'a [(QuoteId, QuoteIntent)],
    now: Timestamp,
) -> StrategyContext<'a> {
    StrategyContext {
        symbol,
        now,
        position: p,
        recent_fills: &[],
        latest_book: s,
        open_quotes: open,
        recent_liqs: &[],
    }
}

#[test]
fn no_emit_when_buffer_warming_up() {
    let mut s = RsiMr::new(cfg());
    let snap = snap(Decimal::from(2000), Decimal::new(200001, 2));
    let p = pos_flat();
    let sym_ = sym();
    let ctx = ctx_for(&sym_, &snap, &p, &[], Timestamp(0));
    let actions = s.on_event(
        &ctx,
        &MarketEvent::BookUpdate {
            snapshot: snap.clone(),
        },
    );
    assert!(actions.is_empty());
}

#[test]
fn bar_rolls_on_minute_boundary() {
    let mut s = RsiMr::new(cfg());
    let snap = snap(Decimal::from(2000), Decimal::new(200001, 2));
    let p = pos_flat();
    let sym_ = sym();
    // First event at t=0 → start bar.
    let ctx0 = ctx_for(&sym_, &snap, &p, &[], Timestamp(0));
    s.on_event(
        &ctx0,
        &MarketEvent::BookUpdate {
            snapshot: snap.clone(),
        },
    );
    assert_eq!(s.closed.len(), 0);
    // Event 61s later → cross bucket → bar should close.
    let ctx1 = ctx_for(&sym_, &snap, &p, &[], Timestamp(61_000_000_000));
    s.on_event(
        &ctx1,
        &MarketEvent::BookUpdate {
            snapshot: snap.clone(),
        },
    );
    assert_eq!(s.closed.len(), 1);
}

fn quick_cfg() -> RsiMrConfig {
    RsiMrConfig {
        max_bars: 3,
        rsi_period: 2,
        rsi_buy_threshold: 45,
        ker_period: 2,
        ker_max_trending: Decimal::new(9, 1),
        vol_zscore_period: 2,
        vol_zscore_min: Decimal::one(),
        atr_period: 1,
        ..cfg()
    }
}

fn minute(n: u64) -> Timestamp {
    Timestamp(n * 60_000_000_000)
}

/// Three bars with closes 100, 102, 99 and volumes 10, 12, 14, the last still open.
fn after_three_bars(s: &mut RsiMr) {
    let book = snap(Decimal::new(989, 1), Decimal::new(991, 1));
    let p = pos_flat();
    let symbol = sym();
    for (n, price, size) in [(0u64, 100i64, 10i64), (1, 102, 12), (2, 99, 14)] {
        let actions = s.on_event(
            &ctx_for(&symbol, &book, &p, &[], minute(n)),
            &MarketEvent::Trade {
                symbol: symbol.clone(),
                price: Price(Decimal::from(price)),
                size: Size(Decimal::from(size)),
                side: Side::Ask,
                ts: minute(n),
            },
        );
        assert!(actions.is_empty());
    }
}

fn entered() -> RsiMr {
    let mut s = RsiMr::new(quick_cfg());
    after_three_bars(&mut s);
    let book = snap(Decimal::new(989, 1), Decimal::new(991, 1));
    let p = pos_flat();
    let symbol = sym();
    let c = ctx_for(&symbol, &book, &p, &[], minute(3));
    let event = MarketEvent::BookUpdate {
        snapshot: book.clone(),
    };
    // The two volumes before the newest are 10 and 12.
    assert_eq!(s.volume_variance_after(&c, &event), Some(Some(Decimal::one())));
    s.set_volume_deviation(Some(Decimal::one()));
    let actions = s.on_event(&c, &event);
    match actions.as_slice() {
        [Action::Quote(q)] => {
            assert_eq!((q.side, q.tif), (Side::Bid, TimeInForce::PostOnly));
            assert_eq!(q.price.0, Decimal::new(989, 1));
            // 50 / 98.9 in steps of a thousandth.
            assert_eq!(q.size.0, Decimal::new(505, 3));
        }
        other => panic!("expected an entry, got {other:?}"),
    }
    // The newest bar reached 3 below the close before it.
    assert_eq!(s.pending_entry.unwrap().atr_at_entry, Decimal::from(3));
    s
}

fn bid_fill(price: i64) -> MarketEvent {
    MarketEvent::Fill(Fill {
        quote_id: QuoteId(1),
        price: Price(Decimal::from(price)),
        size: Size(Decimal::new(505, 3)),
        fee_asset: Asset::new("USDC"),
        fee_amount: Decimal::zero(),
        fee_quote: Notional(Decimal::zero()),
        side: Side::Bid,
        ts: minute(3),
        is_full: true,
        trade_id: None,
    })
}

fn held() -> Position {
    Position {
        size: SignedSize(Decimal::new(505, 3)),
        avg_entry: Price(Decimal::from(99)),
        ..pos_flat()
    }
}

#[test]
fn oversold_chop_on_volume_enters() {
    let s = entered();
    assert!(s.position.is_none());
}

#[test]
fn without_a_deviation_nothing_is_entered() {
    let mut s = RsiMr::new(quick_cfg());
    after_three_bars(&mut s);
    let book = snap(Decimal::new(989, 1), Decimal::new(991, 1));
    let p = pos_flat();
    let symbol = sym();
    let event = MarketEvent::BookUpdate {
        snapshot: book.clone(),
    };
    let actions = s.on_event(&ctx_for(&symbol, &book, &p, &[], minute(3)), &event);
    assert!(actions.is_empty());
}

#[test]
fn entry_fill_posts_the_target() {
    let mut s = entered();
    let book = snap(Decimal::new(989, 1), Decimal::new(991, 1));
    let p = held();
    let symbol = sym();
    let actions = s.on_event(&ctx_for(&symbol, &book, &p, &[], minute(3)), &bid_fill(99));
    match actions.as_slice() {
        [Action::CancelAll, Action::Quote(q)] => {
            assert_eq!((q.side, q.tif), (Side::Ask, TimeInForce::PostOnly));
            // Three ranges of 3 above the fill.
            assert_eq!(q.price.0, Decimal::from(108));
            assert_eq!(q.size.0, Decimal::new(505, 3));
        }
        other => panic!("expected a target, got {other:?}"),
    }
    assert_eq!(s.position.unwrap().entry_price, Decimal::from(99));
}

#[test]
fn stop_sells_a_tick_below_the_bid() {
    let mut s = entered();
    let book = snap(Decimal::new(989, 1), Decimal::new(991, 1));
    let p = held();
    let symbol = sym();
    let _ = s.on_event(&ctx_for(&symbol, &book, &p, &[], minute(3)), &bid_fill(99));
    // Two ranges of 3 below 99 is 93.
    let low = snap(Decimal::new(928, 1), Decimal::new(930, 1));
    let event = MarketEvent::BookUpdate {
        snapshot: low.clone(),
    };
    let actions = s.on_event(&ctx_for(&symbol, &low, &p, &[], minute(3)), &event);
    match actions.as_slice() {
        [Action::CancelAll, Action::Quote(q)] => {
            assert_eq!((q.side, q.tif), (Side::Ask, TimeInForce::IOC));
            assert_eq!(q.price.0, Decimal::new(9279, 2));
        }
        other => panic!("expected a stop, got {other:?}"),
    }
    assert!(s.position.is_none());
}

#[test]
fn stale_entry_is_pulled_on_the_next_bar() {
    let mut s = entered();
    let book = snap(Decimal::new(989, 1), Decimal::new(991, 1));
    let p = pos_flat();
    let symbol = sym();
    let event = MarketEvent::BookUpdate {
        snapshot: book.clone(),
    };
    let actions = s.on_event(&ctx_for(&symbol, &book, &p, &[], minute(4)), &event);
    assert!(matches!(actions.as_slice(), [Action::CancelAll]));
    assert!(s.pending_entry.is_none());
}

#[test]
fn no_more_bars_are_kept_than_configured() {
    let mut s = RsiMr::new(quick_cfg());
    let book = snap(Decimal::new(989, 1), Decimal::new(991, 1));
    let p = pos_flat();
    let symbol = sym();
    for n in 0..10 {
        let _ = s.on_event(
            &ctx_for(&symbol, &book, &p, &[], minute(n)),
            &MarketEvent::BookUpdate {
                snapshot: book.clone(),
            },
        );
        assert!(s.closed.len() <= 3);
    }
    assert_eq!((s.closed.len(), s.bars_seen), (3, 9));
}

/// A strategy that looks at four changes and has seen these closes.
fn after_closes(closes: &[i64]) -> RsiMr {
    let mut s = RsiMr::new(RsiMrConfig {
        ker_period: 4,
        rsi_period: 4,
        ..cfg()
    });
    for close in closes {
        let close = Decimal::new(*close, 2);
        s.closed.push_back(Bar {
            open: close,
            high: close,
            low: close,
            close,
            volume: Decimal::one(),
        });
    }
    s
}

fn ker_of_closes(closes: &[i64]) -> Option<Option<Decimal>> {
    after_closes(closes).ker()
}

#[test]
fn strength_index_lies_between_zero_and_a_hundred() {
    let rsi = |closes: &[i64]| after_closes(closes).rsi();
    assert_eq!(rsi(&[100, 101, 102, 103]), Some(None));
    assert_eq!(rsi(&[100, 101, 102, 103, 104]), Some(Some(Decimal::from(100))));
    assert_eq!(rsi(&[104, 103, 102, 101, 100]), Some(Some(Decimal::zero())));
    // Gains of 6 and losses of 2.
    assert_eq!(rsi(&[100, 103, 102, 101, 104]), Some(Some(Decimal::from(75))));
    let third = rsi(&[100, 101, 100, 99, 99]).unwrap().unwrap();
    assert!(third > Decimal::from(33) && third < Decimal::from(34));
}

#[test]
fn efficiency_ratio_tells_trend_from_chop() {
    let one = Some(Some(Decimal::one()));
    let zero = Some(Some(Decimal::zero()));
    assert_eq!(ker_of_closes(&[100, 101, 102, 103]), Some(None));
    // Pure trends, up and down, also with a pause.
    assert_eq!(ker_of_closes(&[10_000, 10_001, 10_013, 10_050, 10_051]), one);
    assert_eq!(ker_of_closes(&[10_051, 10_050, 10_013, 10_001, 10_000]), one);
    assert_eq!(ker_of_closes(&[10_000, 10_000, 10_013, 10_013, 10_051]), one);
    // Only the newest changes count.
    assert_eq!(ker_of_closes(&[99_999, 100, 101, 102, 103, 107]), one);
    // Chop that ends where it began, and no movement at all.
    assert_eq!(ker_of_closes(&[100, 103, 97, 104, 100]), zero);
    assert_eq!(ker_of_closes(&[100, 100, 100, 100, 100]), zero);
    // Net 4 over a path of 8.
    assert_eq!(ker_of_closes(&[100, 103, 102, 101, 104]), Some(Some(Decimal::new(5, 1))));
}
