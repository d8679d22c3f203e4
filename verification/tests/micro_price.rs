use tikr_strategy::Decimal;
use tikr_strategy::market::{
    Asset, Level, MarketEvent, MarketKind, Notional, Position, Price, Side, SignedSize, Size,
    Snapshot, Symbol, Timestamp, VenueId,
};
use tikr_strategy::micro_price::{MicroPrice, MicroPriceConfig};
use tikr_strategy::strategy::{Strategy, StrategyContext};

fn sym() -> Symbol {
    Symbol {
        base: Asset::new("BTC"),
        quote: Asset::new("USDT"),
        venue: VenueId::new("test"),
        kind: MarketKind::Perp,
    }
}

fn pos(s: &Symbol) -> Position {
    Position {
        symbol: s.clone(),
        size: SignedSize(Decimal::zero()),
        avg_entry: Price(Decimal::zero()),
        realized_pnl: Notional(Decimal::zero()),
    }
}

fn book_sized(s: &Symbol, bid: i64, bid_sz: i64, ask: i64, ask_sz: i64, ts: u64) -> Snapshot {
    Snapshot {
        symbol: s.clone(),
        bids: vec![Level {
            price: Price(Decimal::new(bid, 0)),
            size: Size(Decimal::new(bid_sz, 0)),
        }],
        asks: vec![Level {
            price: Price(Decimal::new(ask, 0)),
            size: Size(Decimal::new(ask_sz, 0)),
        }],
        ts: Timestamp(ts),
    }
}

fn cfg(half: u32, max_skew: u32) -> MicroPriceConfig {
    MicroPriceConfig {
        size_per_quote: Size(Decimal::new(1, 0)),
        tick_size: Decimal::new(1, 1), // 0.1
        half_spread_ticks: half,
        min_requote_interval_ms: 1000,
        max_skew_ticks: max_skew,
        skew_unit: Size(Decimal::new(1, 0)),
    }
}

#[test]
fn balanced_book_quotes_at_mid_plus_or_minus_half() {
    let s = sym();
    let snap = book_sized(&s, 100, 1, 101, 1, 1000);
    let strat = MicroPrice::new(cfg(2, 0));
    let (bid, ask) = strat.compute_targets(&snap, &pos(&s)).unwrap();
    // Balanced 1:1 → micro = 100.5. half = 2*0.1 = 0.2.
    // raw_bid = 100.3 → floor to tick = 100.3. raw_ask = 100.7 → ceil to tick = 100.7.
    assert_eq!(bid.0, Decimal::new(1003, 1));
    assert_eq!(ask.0, Decimal::new(1007, 1));
}

#[test]
fn bid_heavy_book_skews_quotes_up() {
    let s = sym();
    // Bid size 9, ask size 1. micro = (9·101 + 1·100) / 10 = 909+100/10 = 100.9.
    let snap = book_sized(&s, 100, 9, 101, 1, 1000);
    let strat = MicroPrice::new(cfg(2, 0));
    let (bid, ask) = strat.compute_targets(&snap, &pos(&s)).unwrap();
    // raw_bid = 100.7 → floor at tick 0.1 → 100.7. ask = 101.1.
    assert_eq!(bid.0, Decimal::new(1007, 1));
    assert_eq!(ask.0, Decimal::new(1011, 1));
}

#[test]
fn ask_heavy_book_skews_quotes_down() {
    let s = sym();
    // Bid size 1, ask size 9. micro = (1·101 + 9·100) / 10 = 100.1.
    let snap = book_sized(&s, 100, 1, 101, 9, 1000);
    let strat = MicroPrice::new(cfg(2, 0));
    let (bid, ask) = strat.compute_targets(&snap, &pos(&s)).unwrap();
    // raw_bid = 99.9, raw_ask = 100.3.
    assert_eq!(bid.0, Decimal::new(999, 1));
    assert_eq!(ask.0, Decimal::new(1003, 1));
}

#[test]
fn post_only_clamp_prevents_cross() {
    let s = sym();
    // Tight 1-tick spread + heavy bid pressure could push our bid >= best_ask.
    let snap = book_sized(&s, 100, 100, 101, 1, 1000);
    // micro = (100·101 + 1·100)/101 ≈ 100.99. half = 0 ticks (aggressive).
    let strat = MicroPrice::new(cfg(0, 0));
    let (bid, ask) = strat.compute_targets(&snap, &pos(&s)).unwrap();
    assert!(bid.0 < ask.0, "bid {:?} must be < ask {:?}", bid.0, ask.0);
    // Bid must stay below best_ask, ask above best_bid.
    assert!(bid.0 < Decimal::from(101));
    assert!(ask.0 > Decimal::from(100));
}

#[test]
fn long_inventory_skews_quotes_down() {
    let s = sym();
    let snap = book_sized(&s, 100, 1, 101, 1, 1000);
    let strat = MicroPrice::new(cfg(2, 5));
    let mut p = pos(&s);
    p.size = SignedSize(Decimal::from(1)); // long 1 unit = full skew
    let (bid_long, ask_long) = strat.compute_targets(&snap, &p).unwrap();
    let (bid_flat, ask_flat) = strat.compute_targets(&snap, &pos(&s)).unwrap();
    assert!(
        bid_long.0 < bid_flat.0,
        "long bid {:?} should be below flat bid {:?}",
        bid_long.0,
        bid_flat.0
    );
    assert!(
        ask_long.0 < ask_flat.0,
        "long ask {:?} should be below flat ask {:?}",
        ask_long.0,
        ask_flat.0
    );
}

#[test]
fn micro_price_empty_book_returns_none() {
    let s = sym();
    let snap = Snapshot {
        symbol: s.clone(),
        bids: vec![],
        asks: vec![],
        ts: Timestamp(0),
    };
    let strat = MicroPrice::new(cfg(2, 0));
    assert!(strat.compute_targets(&snap, &pos(&s)).is_none());
}

#[test]
fn without_skew_the_position_does_not_matter() {
    let s = sym();
    let snap = book_sized(&s, 100, 1, 101, 1, 1000);
    let strat = MicroPrice::new(cfg(2, 0));
    let mut p = pos(&s);
    p.size = SignedSize(Decimal::from(40));
    assert_eq!(
        strat.compute_targets(&snap, &p),
        strat.compute_targets(&snap, &pos(&s))
    );
    assert_eq!(strat.compute_inventory_skew(&p), Some(Decimal::zero()));
}

#[test]
fn skew_is_not_rounded_to_ticks() {
    let s = sym();
    let strat = MicroPrice::new(cfg(2, 5));
    let mut p = pos(&s);
    p.size = SignedSize(Decimal::new(5, 1));
    // Half of five ticks of 0.1.
    assert_eq!(strat.compute_inventory_skew(&p), Some(Decimal::new(-25, 2)));
}

#[test]
fn trade_leaves_the_targets_alone() {
    let s = sym();
    let snap = book_sized(&s, 100, 1, 101, 1, 1000);
    let p = pos(&s);
    let mut strat = MicroPrice::new(cfg(2, 0));
    let ctx = StrategyContext {
        symbol: &s,
        now: Timestamp(1000),
        position: &p,
        recent_fills: &[],
        latest_book: &snap,
        open_quotes: &[],
        recent_liqs: &[],
    };
    let actions = strat.on_event(
        &ctx,
        &MarketEvent::Trade {
            symbol: s.clone(),
            price: Price(Decimal::from(100)),
            size: Size(Decimal::from(1)),
            side: Side::Bid,
            ts: Timestamp(1000),
        },
    );
    assert!(actions.is_empty());
    assert_eq!(strat.last_bid, None);
}
