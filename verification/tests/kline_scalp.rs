use tikr_strategy::Decimal;
use tikr_strategy::kline_scalp::{KlineScalp, KlineScalpConfig, MomentumSignal};
use tikr_strategy::market::{
    Asset, Level, MarketEvent, MarketKind, Notional, Position, Price, Side, SignedSize, Size,
    Snapshot, Symbol, Timestamp, VenueId,
};
use tikr_strategy::strategy::{Action, Strategy, StrategyContext};

fn times(a: Decimal, b: Decimal) -> Decimal {
    a.checked_mul(b).unwrap()
}

fn over(a: Decimal, b: Decimal) -> Decimal {
    a.checked_div(b).unwrap()
}

fn sym() -> Symbol {
    Symbol {
        base: Asset::new("BTC"),
        quote: Asset::new("USDT"),
        venue: VenueId::new("test"),
        kind: MarketKind::Perp,
    }
}

fn book(symbol: &Symbol, bid: i64, ask: i64, ts: u64) -> Snapshot {
    Snapshot {
        symbol: symbol.clone(),
        bids: vec![Level {
            price: Price(Decimal::from(bid)),
            size: Size(Decimal::one()),
        }],
        asks: vec![Level {
            price: Price(Decimal::from(ask)),
            size: Size(Decimal::one()),
        }],
        ts: Timestamp(ts),
    }
}

fn pos(symbol: &Symbol) -> Position {
    Position {
        symbol: symbol.clone(),
        size: SignedSize(Decimal::zero()),
        avg_entry: Price(Decimal::zero()),
        realized_pnl: Notional(Decimal::zero()),
    }
}

fn ctx<'a>(
    symbol: &'a Symbol,
    snapshot: &'a Snapshot,
    position: &'a Position,
) -> StrategyContext<'a> {
    StrategyContext {
        symbol,
        now: snapshot.ts,
        position,
        recent_fills: &[],
        latest_book: snapshot,
        open_quotes: &[],
        recent_liqs: &[],
    }
}

fn strategy() -> KlineScalp {
    KlineScalp::new(KlineScalpConfig {
        notional_per_order: Decimal::from(100),
        tick_size: Decimal::from(1),
        step_size: Decimal::from(1),
        min_notional: Decimal::zero(),
        min_spread_bps: Decimal::from(12),
        requote_interval_ms: 1000,
        max_position_usdt: Decimal::zero(),
        take_profit_usdt: Decimal::zero(),
        momentum_lookback: 3,
        momentum_bps_threshold: Decimal::new(10, 0),
        momentum_skew_mult: Decimal::from(3),
    })
}

#[test]
fn wide_spread_quotes_symmetric_by_default() {
    let symbol = sym();
    let snapshot = book(&symbol, 100, 110, 1);
    let position = pos(&symbol);
    let mut strategy = strategy();
    let actions = strategy.on_event(
        &ctx(&symbol, &snapshot, &position),
        &MarketEvent::BookUpdate {
            snapshot: snapshot.clone(),
        },
    );
    assert_eq!(actions.len(), 3);
    match (&actions[1], &actions[2]) {
        (Action::Quote(bid), Action::Quote(ask)) => {
            // spacing around mid (105): 12bps = 0.126
            // bid at 105 * (1 - 12/10000) ≈ 104.874
            // ask at 105 * (1 + 12/10000) ≈ 105.126
            assert!(bid.price.0 < ask.price.0);
            assert!(bid.price.0 > Decimal::from(100));
            assert!(ask.price.0 < Decimal::from(110));
        }
        _ => panic!("expected quotes"),
    }
}

#[test]
fn kline_scalp_narrow_spread_does_not_quote() {
    let symbol = sym();
    let snapshot = book(&symbol, 100, 100, 1);
    let position = pos(&symbol);
    let mut strategy = strategy();
    let actions = strategy.on_event(
        &ctx(&symbol, &snapshot, &position),
        &MarketEvent::BookUpdate {
            snapshot: snapshot.clone(),
        },
    );
    assert!(
        actions.is_empty(),
        "narrow spread should produce no actions"
    );
}

#[test]
fn flat_momentum_on_startup() {
    let mut strategy = strategy();
    // Push one mid price — not enough for lookback
    strategy.mid_prices.push_back(Price(Decimal::from(105)));
    assert_eq!(strategy.compute_momentum(), MomentumSignal::Flat);
}

#[test]
fn momentum_up_detected() {
    let mut strategy = strategy();
    let lookback = strategy.config.momentum_lookback as usize;
    for i in 0..=lookback {
        // Mid climbs 10 per step
        strategy
            .mid_prices
            .push_back(Price(Decimal::from(100 + i as i64 * 10)));
    }
    assert_eq!(strategy.compute_momentum(), MomentumSignal::Up);
}

#[test]
fn momentum_down_detected() {
    let mut strategy = strategy();
    let lookback = strategy.config.momentum_lookback as usize;
    for i in 0..=lookback {
        strategy
            .mid_prices
            .push_back(Price(Decimal::from(200 - i as i64 * 10)));
    }
    assert_eq!(strategy.compute_momentum(), MomentumSignal::Down);
}

#[test]
fn skewed_bps_tightens_aggressive_side() {
    // Test skewed_bps directly by constructing a strategy and manually
    // setting the momentum field via the only available path:
    // feed rising prices into mid_prices so compute_momentum() returns Up.
    let mut strategy = strategy();
    let base = Decimal::from(5);
    let skew = strategy.config.momentum_skew_mult;
    let tight = over(base, skew).max(Decimal::one());
    let wide = times(base, skew);
    // Push prices where last - first > threshold → momentum Up
    for p in [100i64, 100, 101, 102] {
        strategy.mid_prices.push_back(Price(Decimal::from(p)));
    }
    assert_eq!(strategy.compute_momentum(), MomentumSignal::Up);
    // Set stored momentum so skewed_bps picks it up (normally done
    // inside emit_requote).
    strategy.momentum = MomentumSignal::Up;
    assert_eq!(strategy.skewed_bps(Side::Ask, base), tight);
    assert_eq!(strategy.skewed_bps(Side::Bid, base), wide);

    // Down: reverse the trend
    strategy.mid_prices.clear();
    for p in [200i64, 200, 199, 198] {
        strategy.mid_prices.push_back(Price(Decimal::from(p)));
    }
    assert_eq!(strategy.compute_momentum(), MomentumSignal::Down);
    strategy.momentum = MomentumSignal::Down;
    assert_eq!(strategy.skewed_bps(Side::Bid, base), tight);
    assert_eq!(strategy.skewed_bps(Side::Ask, base), wide);

    // Flat: need change < threshold over lookback
    strategy.mid_prices.clear();
    strategy.momentum = MomentumSignal::Flat;
    for p in [100i64, 100, 100, 100] {
        strategy.mid_prices.push_back(Price(Decimal::from(p)));
    }
    assert_eq!(strategy.compute_momentum(), MomentumSignal::Flat);
    strategy.momentum = MomentumSignal::Flat;
    assert_eq!(strategy.skewed_bps(Side::Bid, base), base);
    assert_eq!(strategy.skewed_bps(Side::Ask, base), base);
}

#[test]
fn without_lookback_there_is_no_momentum() {
    let mut strategy = strategy();
    strategy.config.momentum_lookback = 0;
    for p in [100i64, 200, 400] {
        strategy.mid_prices.push_back(Price(Decimal::from(p)));
    }
    assert_eq!(strategy.compute_momentum(), MomentumSignal::Flat);
}

#[test]
fn kline_capped_long_is_only_sold() {
    let symbol = sym();
    let snapshot = book(&symbol, 100, 110, 1);
    let mut position = pos(&symbol);
    position.size = SignedSize(Decimal::one());
    let mut strategy = strategy();
    strategy.config.max_position_usdt = Decimal::from(100);
    let actions = strategy.on_event(
        &ctx(&symbol, &snapshot, &position),
        &MarketEvent::BookUpdate {
            snapshot: snapshot.clone(),
        },
    );
    assert!(actions.iter().any(|a| matches!(a, Action::Quote(q) if q.side == Side::Ask)));
    assert!(!actions.iter().any(|a| matches!(a, Action::Quote(q) if q.side == Side::Bid)));
}
