use tikr_strategy::keel::{Keel, KeelConfig, KeelMode};
use tikr_strategy::market::{
    Asset, Fill, Level, MarketEvent, MarketKind, Notional, Position, Price, QuoteId, QuoteIntent,
    QuoteKind, Side, SignedSize, Size, Snapshot, Symbol, TimeInForce, Timestamp, VenueId,
};
use tikr_strategy::strategy::{Action, Strategy, StrategyContext};
use tikr_strategy::Decimal;

fn dec(text: &str) -> Decimal {
    let parsed = rust_decimal::Decimal::from_str_exact(text).unwrap();
    Decimal::from_i128_with_scale(parsed.mantissa(), parsed.scale())
}

fn sym() -> Symbol {
    Symbol {
        base: Asset::new("SUI"),
        quote: Asset::new("USDC"),
        venue: VenueId::new("test"),
        kind: MarketKind::Perp,
    }
}

fn book(bid: &str, ask: &str) -> Snapshot {
    Snapshot {
        symbol: sym(),
        bids: vec![Level {
            price: Price(dec(bid)),
            size: Size(Decimal::one()),
        }],
        asks: vec![Level {
            price: Price(dec(ask)),
            size: Size(Decimal::one()),
        }],
        ts: Timestamp(0),
    }
}

fn pos(size: &str, avg: &str) -> Position {
    Position {
        symbol: sym(),
        size: SignedSize(dec(size)),
        avg_entry: Price(dec(avg)),
        realized_pnl: Notional(Decimal::zero()),
    }
}

fn fill() -> Fill {
    Fill {
        quote_id: QuoteId(1),
        price: Price(dec("100")),
        size: Size(Decimal::one()),
        fee_asset: Asset::new("USDC"),
        fee_amount: Decimal::zero(),
        fee_quote: Notional(Decimal::zero()),
        side: Side::Bid,
        ts: Timestamp(0),
        is_full: true,
        trade_id: None,
    }
}

fn resting(id: u128, side: Side, price: &str, size: &str) -> (QuoteId, QuoteIntent) {
    (
        QuoteId(id),
        QuoteIntent {
            symbol: sym(),
            side,
            price: Price(dec(price)),
            size: Size(dec(size)),
            tif: TimeInForce::PostOnly,
            kind: QuoteKind::Point,
        },
    )
}

struct World {
    symbol: Symbol,
    book: Snapshot,
    position: Position,
    open: Vec<(QuoteId, QuoteIntent)>,
    fills: Vec<Fill>,
    now: u64,
}

fn world(bid: &str, ask: &str, position: Position) -> World {
    World {
        symbol: sym(),
        book: book(bid, ask),
        position,
        open: vec![],
        fills: vec![],
        now: 0,
    }
}

fn react(keel: &mut Keel, w: &World) -> Vec<Action> {
    let ctx = StrategyContext {
        symbol: &w.symbol,
        now: Timestamp(w.now),
        position: &w.position,
        recent_fills: &w.fills,
        latest_book: &w.book,
        open_quotes: &w.open,
        recent_liqs: &[],
    };
    keel.on_event(
        &ctx,
        &MarketEvent::Heartbeat {
            ts: Timestamp(w.now),
        },
    )
}

fn quotes(actions: &[Action]) -> Vec<QuoteIntent> {
    actions
        .iter()
        .filter_map(|a| match a {
            Action::Quote(q) => Some(q.clone()),
            _ => None,
        })
        .collect()
}

fn on_side(quotes: &[QuoteIntent], side: Side) -> Vec<Decimal> {
    quotes
        .iter()
        .filter(|q| q.side == side)
        .map(|q| q.price.0)
        .collect()
}

fn cfg() -> KeelConfig {
    KeelConfig {
        levels: 3,
        inner_bps: dec("100"),
        step_bps: dec("100"),
        reduce_bps: dec("50"),
        ..KeelConfig::defaults(dec("100"))
    }
}

#[test]
fn defaults_are_those_of_a_tight_trailing_grid() {
    let c = KeelConfig::defaults(dec("25"));
    assert_eq!(c.notional_per_order, dec("25"));
    assert_eq!((c.inner_bps, c.step_bps, c.reduce_bps), (dec("2"), dec("2"), dec("2")));
    assert_eq!((c.levels, c.max_open), (10, 60));
    assert_eq!(c.mode, KeelMode::Trailing);
    assert_eq!(c.trend_min_ratio, dec("0.6"));
    assert_eq!((c.trend_window_secs, c.flip_cooldown_secs), (0, 5));
}

#[test]
fn flat_book_gets_the_lattice_on_both_sides() {
    let mut keel = Keel::new(cfg());
    let actions = react(&mut keel, &world("99.5", "100.5", pos("0", "0")));
    let placed = quotes(&actions);
    assert_eq!(on_side(&placed, Side::Bid), vec![dec("97"), dec("98")]);
    assert_eq!(on_side(&placed, Side::Ask), vec![dec("102"), dec("103")]);
    assert_eq!(placed[1].size.0, dec("100").checked_div(dec("98")).unwrap());
}

#[test]
fn deeper_rungs_carry_more() {
    let mut keel = Keel::new(KeelConfig {
        size_ramp: dec("0.5"),
        ..cfg()
    });
    let placed = quotes(&react(&mut keel, &world("99.5", "100.5", pos("0", "0"))));
    // Depth two: 100 x (1 + 0.5 x 2) = 200; depth three: 250.
    assert_eq!(placed[1].size.0, dec("200").checked_div(dec("98")).unwrap());
    assert_eq!(placed[0].size.0, dec("250").checked_div(dec("97")).unwrap());
}

#[test]
fn anchor_stays_where_it_was_set() {
    let mut keel = Keel::new(cfg());
    let _ = react(&mut keel, &world("99.5", "100.5", pos("0", "0")));
    assert_eq!(keel.origin, Some(dec("100")));
    let placed = quotes(&react(&mut keel, &world("104.5", "105.5", pos("0", "0"))));
    assert_eq!(keel.origin, Some(dec("100")));
    // Rungs 102..=108 around the mid of 105, with a dead zone of 1.05.
    assert_eq!(on_side(&placed, Side::Bid), vec![dec("102"), dec("103")]);
    assert_eq!(on_side(&placed, Side::Ask), vec![dec("107"), dec("108")]);
}

#[test]
fn standing_lattice_is_left_alone() {
    let mut keel = Keel::new(cfg());
    let mut w = world("99.5", "100.5", pos("0", "0"));
    let placed = quotes(&react(&mut keel, &w));
    w.open = placed
        .iter()
        .enumerate()
        .map(|(i, q)| (QuoteId(i as u128), q.clone()))
        .collect();
    w.book = book("100.4", "101.4");
    assert!(matches!(react(&mut keel, &w).as_slice(), [Action::NoOp]));
    // A full step away the lattice is looked at again: rung 104 comes in, and the
    // rung that fell into the dead zone is left resting.
    w.book = book("100.6", "101.6");
    let actions = react(&mut keel, &w);
    assert_eq!(on_side(&quotes(&actions), Side::Ask), vec![dec("104")]);
    assert!(!actions.iter().any(|a| matches!(a, Action::Cancel(_))));
}

#[test]
fn only_a_size_that_is_off_is_requoted() {
    let mut keel = Keel::new(cfg());
    let mut w = world("99.5", "100.5", pos("0", "0"));
    let placed = quotes(&react(&mut keel, &w));
    w.fills = vec![fill()];
    w.open = vec![
        (QuoteId(1), placed[0].clone()),
        (QuoteId(2), placed[1].clone()),
    ];
    w.open[0].1.size = Size(dec("1.03"));
    w.open[1].1.size = Size(dec("0.5"));
    let actions = react(&mut keel, &w);
    assert!(actions.iter().any(|a| match a {
        Action::Requote { id, intent } => *id == QuoteId(2) && intent.price.0 == dec("98"),
        _ => false,
    }));
    assert!(!actions
        .iter()
        .any(|a| matches!(a, Action::Requote { id, .. } if *id == QuoteId(1))));
    assert_eq!(on_side(&quotes(&actions), Side::Bid), vec![]);
}

#[test]
fn long_is_reduced_by_one_order_beyond_the_average() {
    let mut keel = Keel::new(cfg());
    let mut w = world("99.5", "100.5", pos("2", "101"));
    w.open = vec![resting(9, Side::Ask, "102", "1")];
    let actions = react(&mut keel, &w);
    let placed = quotes(&actions);
    // 101 x 1.005 is past the touch.
    assert_eq!(on_side(&placed, Side::Ask), vec![dec("101.505")]);
    assert_eq!(placed.last().unwrap().size.0, dec("2"));
    assert!(actions
        .iter()
        .any(|a| matches!(a, Action::Cancel(id) if *id == QuoteId(9))));
    assert_eq!(on_side(&placed, Side::Bid), vec![dec("97"), dec("98")]);
}

#[test]
fn short_is_bought_back_below_the_average() {
    let mut keel = Keel::new(cfg());
    let placed = quotes(&react(&mut keel, &world("99.5", "100.5", pos("-2", "99"))));
    assert_eq!(on_side(&placed, Side::Bid), vec![dec("98.505")]);
    assert_eq!(on_side(&placed, Side::Ask), vec![dec("102"), dec("103")]);
}

#[test]
fn lattice_mode_keeps_both_sides() {
    let mut keel = Keel::new(KeelConfig {
        mode: KeelMode::Lattice,
        ..cfg()
    });
    let placed = quotes(&react(&mut keel, &world("99.5", "100.5", pos("2", "101"))));
    assert_eq!(on_side(&placed, Side::Ask), vec![dec("102"), dec("103")]);
    assert_eq!(on_side(&placed, Side::Bid).len(), 2);
}

#[test]
fn capped_long_gets_no_bids() {
    let mut keel = Keel::new(KeelConfig {
        max_position_notional: dec("200"),
        ..cfg()
    });
    let placed = quotes(&react(&mut keel, &world("99.5", "100.5", pos("2", "101"))));
    assert_eq!(on_side(&placed, Side::Bid), vec![]);
    assert_eq!(on_side(&placed, Side::Ask).len(), 1);
}

#[test]
fn farthest_outskirts_are_trimmed_first() {
    let mut keel = Keel::new(KeelConfig {
        max_open: 6,
        ..cfg()
    });
    let mut w = world("99.5", "100.5", pos("0", "0"));
    w.open = vec![
        resting(1, Side::Bid, "90", "1"),
        resting(2, Side::Ask, "120", "1"),
        resting(3, Side::Bid, "95", "1"),
    ];
    // Three rest and four are new: one is over the limit.
    let actions = react(&mut keel, &w);
    let cancelled: Vec<QuoteId> = actions
        .iter()
        .filter_map(|a| match a {
            Action::Cancel(id) => Some(*id),
            _ => None,
        })
        .collect();
    assert_eq!(cancelled, vec![QuoteId(2)]);
}

#[test]
fn drawdown_flips_once_per_cooldown() {
    let mut keel = Keel::new(KeelConfig {
        sar_trigger_bps: dec("200"),
        ..cfg()
    });
    let mut w = world("97.5", "98.5", pos("2", "100"));
    let actions = react(&mut keel, &w);
    match actions.as_slice() {
        [Action::Quote(q)] => {
            assert_eq!((q.side, q.tif), (Side::Ask, TimeInForce::IOC));
            assert_eq!((q.price.0, q.size.0), (dec("97.5"), dec("4")));
        }
        other => panic!("expected a flip, got {other:?}"),
    }
    w.now = 4_999_999_999;
    assert!(!quotes(&react(&mut keel, &w))
        .iter()
        .any(|q| q.tif == TimeInForce::IOC));
    w.now = 5_000_000_000;
    assert!(quotes(&react(&mut keel, &w))
        .iter()
        .any(|q| q.tif == TimeInForce::IOC));
}

#[test]
fn flat_position_is_not_flipped() {
    let mut keel = Keel::new(KeelConfig {
        sar_trigger_bps: dec("1"),
        ..cfg()
    });
    let placed = quotes(&react(&mut keel, &world("97.5", "98.5", pos("0", "100"))));
    assert!(placed.iter().all(|q| q.tif == TimeInForce::PostOnly));
}

#[test]
fn one_way_run_flips_against_the_trend() {
    let mut keel = Keel::new(KeelConfig {
        trend_window_secs: 10,
        ..cfg()
    });
    let mut w = world("99.5", "100.5", pos("-1", "100"));
    let _ = react(&mut keel, &w);
    w.now = 1_000_000_000;
    w.book = book("99.6", "100.6");
    let _ = react(&mut keel, &w);
    w.now = 2_000_000_000;
    w.book = book("99.7", "100.7");
    let actions = react(&mut keel, &w);
    match actions.as_slice() {
        [Action::Quote(q)] => {
            assert_eq!((q.side, q.tif), (Side::Bid, TimeInForce::IOC));
            assert_eq!((q.price.0, q.size.0), (dec("100.7"), dec("2")));
        }
        other => panic!("expected a flip, got {other:?}"),
    }
}

#[test]
fn pegged_order_never_loses_to_the_average() {
    let w = world("99.5", "100.5", pos("2", "90"));
    let ctx = StrategyContext {
        symbol: &w.symbol,
        now: Timestamp(0),
        position: &w.position,
        recent_fills: &[],
        latest_book: &w.book,
        open_quotes: &[],
        recent_liqs: &[],
    };
    // 90 x 1.005 lies below the touch, so the order joins the touch.
    assert_eq!(
        Keel::try_reduce_price(&cfg(), &ctx),
        Some(Some((Side::Ask, dec("100.5"))))
    );
}

#[test]
fn one_sided_book_calls_for_nothing() {
    let mut keel = Keel::new(cfg());
    let mut w = world("99.5", "100.5", pos("0", "0"));
    w.book.asks.clear();
    assert!(matches!(react(&mut keel, &w).as_slice(), [Action::NoOp]));
    assert_eq!(keel.name(), "keel");
}

#[test]
fn trailing_order_is_rounded_away_from_the_average() {
    let mut keel = Keel::new(KeelConfig {
        tick_size: Decimal::one(),
        ..KeelConfig::defaults(dec("10"))
    });
    let long = quotes(&react(&mut keel, &world("99", "100", pos("1", "100.4"))));
    assert_eq!(on_side(&long, Side::Ask), vec![dec("101")]);
    let mut keel = Keel::new(KeelConfig {
        tick_size: Decimal::one(),
        ..KeelConfig::defaults(dec("10"))
    });
    let short = quotes(&react(&mut keel, &world("100", "101", pos("-1", "99.6"))));
    assert_eq!(on_side(&short, Side::Bid), vec![dec("99")]);
}

#[test]
fn trailing_order_without_a_distance_does_not_lose() {
    let mut keel = Keel::new(KeelConfig {
        tick_size: Decimal::one(),
        reduce_bps: Decimal::zero(),
        ..KeelConfig::defaults(dec("10"))
    });
    let placed = quotes(&react(&mut keel, &world("99", "100", pos("1", "100.4"))));
    assert_eq!(on_side(&placed, Side::Ask), vec![dec("101")]);
}
