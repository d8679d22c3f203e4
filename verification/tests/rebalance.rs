use tikr_strategy::Decimal;
use tikr_strategy::market::{
    Asset, Level, MarketEvent, MarketKind, Notional, Position, Price, Side, SignedSize, Size,
    Snapshot, Symbol, TimeInForce, Timestamp, VenueId,
};
use tikr_strategy::rebalance::{Rebalance, RebalanceConfig};
use tikr_strategy::strategy::{Action, Strategy, StrategyContext};

fn plus(a: Decimal, b: Decimal) -> Decimal {
    a.checked_add(b).unwrap()
}

fn minus(a: Decimal, b: Decimal) -> Decimal {
    a.checked_sub(b).unwrap()
}

fn times(a: Decimal, b: Decimal) -> Decimal {
    a.checked_mul(b).unwrap()
}

fn over(a: Decimal, b: Decimal) -> Decimal {
    a.checked_div(b).unwrap()
}

fn sym() -> Symbol {
    Symbol {
        base: Asset::new("BTC"),
        quote: Asset::new("USDC"),
        venue: VenueId::new("test"),
        kind: MarketKind::Perp,
    }
}

fn book(symbol: &Symbol, bid: Decimal, ask: Decimal) -> Snapshot {
    Snapshot {
        symbol: symbol.clone(),
        bids: vec![Level {
            price: Price(bid),
            size: Size(Decimal::one()),
        }],
        asks: vec![Level {
            price: Price(ask),
            size: Size(Decimal::one()),
        }],
        ts: Timestamp(1),
    }
}

/// Position holding `units` long (spot pre-seeds the anchor `a0`).
fn pos_long(symbol: &Symbol, units: Decimal) -> Position {
    Position {
        symbol: symbol.clone(),
        size: SignedSize(units),
        avg_entry: Price(Decimal::zero()),
        realized_pnl: Notional(Decimal::zero()),
    }
}

fn cfg() -> RebalanceConfig {
    RebalanceConfig {
        band_bps: 50,
        levels: 3,
        target_asset_frac: Decimal::new(5, 1),
        initial_balance: Decimal::from(10_000),
        min_order_notional: Decimal::zero(),
    }
}

#[test]
fn seed_balances_at_anchor() {
    let mut r = Rebalance::new(cfg());
    r.seed(Price(Decimal::from(100)));
    let n = r.n();
    // Anchor: 50% of $10k in asset at $100 = $5000 / 100 = 50 units.
    assert_eq!(r.rung_units[n], Decimal::from(50));
    // Units strictly decrease as price (index) rises.
    for i in 1..r.rung_units.len() {
        assert!(
            r.rung_units[i] < r.rung_units[i - 1],
            "T must decrease with price at idx {i}"
        );
    }
}

#[test]
fn each_rung_restores_target_fraction() {
    // Walking out from the anchor, the precomputed (cash, units) at each rung
    // must hold exactly target_frac of the value AT that rung. Reconstruct
    // cash by undoing each trade and check the 50/50 split.
    let mut r = Rebalance::new(cfg());
    let p0 = Decimal::from(100);
    r.seed(Price(p0));
    let n = r.n();
    let w = Decimal::new(5, 1);
    // Recompute cash forward along the DOWN walk and assert balance.
    let mut cash = times(r.config.initial_balance, minus(Decimal::one(), w));
    for step in 1..=n {
        let idx = n - step;
        let price = r.rung_prices[idx];
        let bought = minus(r.rung_units[idx], r.rung_units[idx + 1]);
        cash = minus(cash, times(bought, price));
        let asset_val = times(r.rung_units[idx], price);
        let total = plus(cash, asset_val);
        let frac = over(asset_val, total);
        assert!(
            minus(frac, w).abs() < Decimal::new(1, 4),
            "rung {idx}: asset frac {frac:?} != {w:?}"
        );
    }
}

#[test]
fn first_book_seeds_and_places_ladder() {
    let symbol = sym();
    let snap = book(&symbol, Decimal::from(100), Decimal::from(100));
    // Spot pre-seeds a0 = 50% × $10k / $100 = 50 units long.
    let position = pos_long(&symbol, Decimal::from(50));
    let mut r = Rebalance::new(cfg());
    let ctx = StrategyContext {
        symbol: &symbol,
        now: Timestamp(1),
        position: &position,
        recent_fills: &[],
        latest_book: &snap,
        open_quotes: &[],
        recent_liqs: &[],
    };
    let actions = r.on_event(
        &ctx,
        &MarketEvent::BookUpdate {
            snapshot: snap.clone(),
        },
    );
    let buys = actions
        .iter()
        .filter(|a| matches!(a, Action::Quote(q) if q.side == Side::Bid))
        .count();
    let sells = actions
        .iter()
        .filter(|a| matches!(a, Action::Quote(q) if q.side == Side::Ask))
        .count();
    // mid == 100 == anchor: 3 rungs below (buys), 3 above (sells).
    assert_eq!(buys, 3, "expected 3 buy rungs");
    assert_eq!(sells, 3, "expected 3 sell rungs");
}

#[test]
fn buy_fill_mirrors_to_sell_one_rung_up_same_size() {
    // A filled BUY at r_j must mirror to a SELL at r_{j+1} carrying the SAME
    // quantity — the offsetting leg that books the round-trip. Sizes never
    // drift; the lattice stays frozen.
    let symbol = sym();
    let mut r = Rebalance::new(cfg());
    r.seed(Price(Decimal::from(100)));
    let n = r.n();
    let j = n - 1; // first rung below anchor
    let qty = minus(r.rung_units[j], r.rung_units[j + 1]).round_dp(8);
    let out = r.mirror(&symbol, r.rung_prices[j], Side::Bid, qty);
    assert_eq!(out.len(), 1);
    match &out[0] {
        Action::Quote(q) => {
            assert_eq!(q.side, Side::Ask);
            assert_eq!(q.price.0, r.rung_prices[j + 1]);
            assert_eq!(q.size.0, qty);
        }
        _ => panic!("expected a mirror quote"),
    }
}

#[test]
fn sell_fill_mirrors_to_buy_one_rung_down_same_size() {
    let symbol = sym();
    let mut r = Rebalance::new(cfg());
    r.seed(Price(Decimal::from(100)));
    let n = r.n();
    let j = n + 1; // first rung above anchor
    let qty = minus(r.rung_units[j - 1], r.rung_units[j]).round_dp(8);
    let out = r.mirror(&symbol, r.rung_prices[j], Side::Ask, qty);
    assert_eq!(out.len(), 1);
    match &out[0] {
        Action::Quote(q) => {
            assert_eq!(q.side, Side::Bid);
            assert_eq!(q.price.0, r.rung_prices[j - 1]);
            assert_eq!(q.size.0, qty);
        }
        _ => panic!("expected a mirror quote"),
    }
}

#[test]
fn second_book_update_is_a_noop() {
    // The ladder is placed once; later book updates must NOT re-quote or
    // cancel — orders rest in place until filled.
    let symbol = sym();
    let snap = book(&symbol, Decimal::from(100), Decimal::from(100));
    let position = pos_long(&symbol, Decimal::from(50)); // spot pre-seed
    let mut r = Rebalance::new(cfg());
    let ctx1 = StrategyContext {
        symbol: &symbol,
        now: Timestamp(1),
        position: &position,
        recent_fills: &[],
        latest_book: &snap,
        open_quotes: &[],
        recent_liqs: &[],
    };
    let first = r.on_event(
        &ctx1,
        &MarketEvent::BookUpdate {
            snapshot: snap.clone(),
        },
    );
    assert!(!first.is_empty(), "first book seeds the ladder");
    let snap2 = book(&symbol, Decimal::new(1001, 1), Decimal::new(1002, 1));
    let ctx2 = StrategyContext {
        symbol: &symbol,
        now: Timestamp(2),
        position: &position,
        recent_fills: &[],
        latest_book: &snap2,
        open_quotes: &[],
        recent_liqs: &[],
    };
    let second = r.on_event(
        &ctx2,
        &MarketEvent::BookUpdate {
            snapshot: snap2.clone(),
        },
    );
    assert!(
        second.is_empty(),
        "later book updates leave orders in place"
    );
}

#[test]
fn futures_opens_long_before_placing_ladder() {
    // Starting flat (futures), the first book must emit a marketable IOC BUY
    // to open the anchor long a0 — NOT the ladder yet. Only once the long is
    // held does the ladder go down (proven by feeding the position back).
    let symbol = sym();
    let snap = book(&symbol, Decimal::from(100), Decimal::from(100));
    let flat = pos_long(&symbol, Decimal::zero());
    let mut r = Rebalance::new(cfg());
    let ctx_flat = StrategyContext {
        symbol: &symbol,
        now: Timestamp(1),
        position: &flat,
        recent_fills: &[],
        latest_book: &snap,
        open_quotes: &[],
        recent_liqs: &[],
    };
    let open = r.on_event(
        &ctx_flat,
        &MarketEvent::BookUpdate {
            snapshot: snap.clone(),
        },
    );
    assert_eq!(open.len(), 1, "exactly one opening order");
    match &open[0] {
        Action::Quote(q) => {
            assert_eq!(q.side, Side::Bid);
            assert_eq!(q.tif, TimeInForce::IOC);
            assert_eq!(q.size.0, Decimal::from(50)); // a0 = 50 units
        }
        _ => panic!("expected an IOC open"),
    }
    // Now hold a0; the ladder should be placed.
    let held = pos_long(&symbol, Decimal::from(50));
    let ctx_held = StrategyContext {
        symbol: &symbol,
        now: Timestamp(2),
        position: &held,
        recent_fills: &[],
        latest_book: &snap,
        open_quotes: &[],
        recent_liqs: &[],
    };
    let ladder = r.on_event(
        &ctx_held,
        &MarketEvent::BookUpdate {
            snapshot: snap.clone(),
        },
    );
    let buys = ladder
        .iter()
        .filter(|a| matches!(a, Action::Quote(q) if q.side == Side::Bid))
        .count();
    let sells = ladder
        .iter()
        .filter(|a| matches!(a, Action::Quote(q) if q.side == Side::Ask))
        .count();
    assert_eq!((buys, sells), (3, 3), "ladder placed once long is open");
}

#[test]
fn rungs_are_spaced_by_the_band() {
    let mut r = Rebalance::new(cfg());
    r.seed(Price(Decimal::from(100)));
    assert_eq!(r.rung_prices.len(), 7);
    assert_eq!(r.rung_prices[3], Decimal::from(100));
    assert_eq!(r.rung_prices[2], Decimal::new(995, 1));
    assert_eq!(r.rung_prices[4], Decimal::new(1005, 1));
    assert_eq!((r.rung_prices.len(), r.rung_units.len()), (7, 7));
}

#[test]
fn frozen_lattice_ignores_later_mids() {
    let symbol = sym();
    let position = pos_long(&symbol, Decimal::from(50));
    let mut r = Rebalance::new(cfg());
    let mut frozen = None;
    for mid in [100i64, 120, 80] {
        let snap = book(&symbol, Decimal::from(mid), Decimal::from(mid));
        let ctx = StrategyContext {
            symbol: &symbol,
            now: Timestamp(1),
            position: &position,
            recent_fills: &[],
            latest_book: &snap,
            open_quotes: &[],
            recent_liqs: &[],
        };
        let _ = r.on_event(
            &ctx,
            &MarketEvent::BookUpdate {
                snapshot: snap.clone(),
            },
        );
        let now = (r.rung_prices.clone(), r.rung_units.clone());
        assert_eq!(*frozen.get_or_insert(now.clone()), now);
    }
    assert_eq!(r.anchor, Some(Price(Decimal::from(100))));
}

#[test]
fn refused_order_is_quoted_again_once_it_would_rest() {
    let symbol = sym();
    let snap = book(&symbol, Decimal::from(100), Decimal::from(100));
    let position = pos_long(&symbol, Decimal::from(50));
    let mut r = Rebalance::new(cfg());
    let ctx = StrategyContext {
        symbol: &symbol,
        now: Timestamp(1),
        position: &position,
        recent_fills: &[],
        latest_book: &snap,
        open_quotes: &[],
        recent_liqs: &[],
    };
    let placed = r.on_event(
        &ctx,
        &MarketEvent::BookUpdate {
            snapshot: snap.clone(),
        },
    );
    // One order per rung, none at the anchor.
    assert_eq!(placed.len(), 6);
    let Action::Quote(bid) = &placed[0] else {
        panic!("expected a quote");
    };
    assert_eq!(bid.side, Side::Bid);
    assert!(r.on_quote_rejected(&ctx, bid, "would cross").is_empty());
    assert_eq!(r.rejected.len(), 1);
    // Still crossing at the order's own price, resting again above it.
    let low = book(&symbol, bid.price.0, bid.price.0);
    assert!(r
        .on_event(
            &ctx,
            &MarketEvent::BookUpdate {
                snapshot: low.clone()
            }
        )
        .is_empty());
    let again = r.on_event(
        &ctx,
        &MarketEvent::BookUpdate {
            snapshot: snap.clone(),
        },
    );
    assert_eq!(again.len(), 1);
    assert!(matches!(&again[0], Action::Quote(q) if q.price == bid.price && q.symbol == symbol));
    assert!(r.rejected.is_empty());
}

#[test]
fn default_settings_of_the_lattice() {
    let c = RebalanceConfig::default();
    assert_eq!((c.band_bps, c.levels), (50, 10));
    assert_eq!(c.target_asset_frac, Decimal::new(5, 1));
    assert_eq!(c.initial_balance, Decimal::from(10_000));
    assert_eq!(c.min_order_notional, Decimal::from(5));
}

#[test]
fn rung_prices_ascend() {
    let mut r = Rebalance::new(RebalanceConfig::default());
    r.seed(Price(Decimal::new(1_234_567, 2)));
    assert_eq!(r.rung_prices.len(), 21);
    assert!(r.rung_prices.windows(2).all(|w| w[0] < w[1]));
}

#[test]
fn mirror_of_a_mirror_is_the_order_that_was_there() {
    let mut r = Rebalance::new(cfg());
    r.seed(Price(Decimal::from(100)));
    let symbol = sym();
    let quote = |actions: Vec<Action>| match actions.into_iter().next() {
        Some(Action::Quote(q)) => q,
        other => panic!("expected a quote, got {other:?}"),
    };
    for i in 0..r.rung_prices.len() - 1 {
        let qty = minus(r.rung_units[i], r.rung_units[i + 1]).round_dp(8);
        let first = quote(r.mirror(&symbol, r.rung_prices[i], Side::Bid, qty));
        assert_eq!((first.side, first.price.0), (Side::Ask, r.rung_prices[i + 1]));
        let again = quote(r.mirror(&symbol, first.price.0, first.side, first.size.0));
        assert_eq!((again.side, again.price.0), (Side::Bid, r.rung_prices[i]));
        assert_eq!(again.size.0, qty);
    }
}
