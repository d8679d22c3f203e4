use tikr_strategy::Decimal;
use tikr_strategy::flat_mm::{FlatMm, FlatMmConfig};
use tikr_strategy::market::{
    Asset, Level, MarketEvent, MarketKind, Notional, Position, Price, QuoteId, QuoteIntent, Side,
    SignedSize, Size, Snapshot, Symbol, Timestamp, VenueId,
};
use tikr_strategy::strategy::{Action, Strategy, StrategyContext};

fn plus(a: Decimal, b: Decimal) -> Decimal {
    a.checked_add(b).unwrap()
}

fn minus(a: Decimal, b: Decimal) -> Decimal {
    a.checked_sub(b).unwrap()
}

fn sym() -> Symbol {
    Symbol {
        base: Asset::new("SUI"),
        quote: Asset::new("USDC"),
        venue: VenueId::new("test"),
        kind: MarketKind::Perp,
    }
}

fn book(symbol: &Symbol) -> Snapshot {
    Snapshot {
        symbol: symbol.clone(),
        bids: vec![Level {
            price: Price(Decimal::new(9999, 4)), // 0.9999
            size: Size(Decimal::from(100)),
        }],
        asks: vec![Level {
            price: Price(Decimal::new(10001, 4)), // 1.0001
            size: Size(Decimal::from(100)),
        }],
        ts: Timestamp(1),
    }
}

fn pos(symbol: &Symbol, size: Decimal, avg: Decimal) -> Position {
    Position {
        symbol: symbol.clone(),
        size: SignedSize(size),
        avg_entry: Price(avg),
        realized_pnl: Notional(Decimal::zero()),
    }
}

fn ctx<'a>(
    s: &'a Symbol,
    b: &'a Snapshot,
    p: &'a Position,
    open: &'a [(QuoteId, QuoteIntent)],
) -> StrategyContext<'a> {
    StrategyContext {
        symbol: s,
        now: Timestamp(1),
        position: p,
        recent_fills: &[],
        latest_book: b,
        open_quotes: open,
        recent_liqs: &[],
    }
}

fn cfg() -> FlatMmConfig {
    FlatMmConfig {
        notional_per_order: Decimal::from(5),
        tick_size: Decimal::zero(),
        step_size: Decimal::zero(),
        min_notional: Decimal::zero(),
        inner_bps: Decimal::one(),
        step_bps: Decimal::one(),
        levels: 3,
        reservation_skew_bps: Decimal::from(2),
        imbalance_skew_bps: Decimal::zero(),
        skew_unit_notional: Decimal::from(100),
        flush_bps: Decimal::one(),
        chase_boost_pct: Decimal::zero(),
        flush_frac: Decimal::one(),
        underwater_reduce_frac: Decimal::one(),
    }
}

fn quotes(actions: &[Action]) -> Vec<&QuoteIntent> {
    actions
        .iter()
        .filter_map(|a| match a {
            Action::Quote(q) => Some(q),
            _ => None,
        })
        .collect()
}

/// Turn the Quote actions from a cycle into resting (id, intent) pairs so a
/// follow-up cycle can reconcile against them.
fn as_resting(actions: &[Action]) -> Vec<(QuoteId, QuoteIntent)> {
    actions
        .iter()
        .enumerate()
        .filter_map(|(i, a)| match a {
            Action::Quote(q) => Some((QuoteId(i as u128), q.clone())),
            _ => None,
        })
        .collect()
}

/// Book with a chosen `mid` and a tiny 1-unit half-spread around it.
fn book_mid(symbol: &Symbol, mid: Decimal) -> Snapshot {
    let h = Decimal::new(5, 5); // 0.00005
    Snapshot {
        symbol: symbol.clone(),
        bids: vec![Level {
            price: Price(minus(mid, h)),
            size: Size(Decimal::from(100)),
        }],
        asks: vec![Level {
            price: Price(plus(mid, h)),
            size: Size(Decimal::from(100)),
        }],
        ts: Timestamp(1),
    }
}

#[test]
fn sub_spread_book_move_skips_requote() {
    // cfg() inner_bps = 1 → quoted spread (deadband) = 2 bps.
    let s = sym();
    let p = pos(&s, Decimal::zero(), Decimal::zero());
    let mut st = FlatMm::new(cfg());
    // First placement at mid 1.0000 → ladder placed, last_quote_mid = 1.0.
    let b0 = book_mid(&s, Decimal::one());
    let a0 = st.on_event(
        &ctx(&s, &b0, &p, &[]),
        &MarketEvent::BookUpdate {
            snapshot: b0.clone(),
        },
    );
    let resting = as_resting(&a0);
    assert!(!resting.is_empty(), "first event must place the ladder");
    // +1 bps move (< 2 bps spread) with the ladder resting → NO requote.
    let b1 = book_mid(&s, Decimal::new(10001, 4)); // 1.0001
    let a1 = st.on_event(
        &ctx(&s, &b1, &p, &resting),
        &MarketEvent::BookUpdate {
            snapshot: b1.clone(),
        },
    );
    assert!(
        a1.is_empty(),
        "sub-spread move must not requote, got {a1:?}"
    );
    // +3 bps move (≥ 2 bps spread) → requote fires.
    let b2 = book_mid(&s, Decimal::new(10003, 4)); // 1.0003
    let a2 = st.on_event(
        &ctx(&s, &b2, &p, &resting),
        &MarketEvent::BookUpdate {
            snapshot: b2.clone(),
        },
    );
    assert!(!a2.is_empty(), "supra-spread move must requote");
}

#[test]
fn flat_book_quotes_symmetric_ladder_no_cancel_all() {
    let s = sym();
    let b = book(&s);
    let p = pos(&s, Decimal::zero(), Decimal::zero());
    let mut st = FlatMm::new(cfg());
    let acts = st.on_event(
        &ctx(&s, &b, &p, &[]),
        &MarketEvent::BookUpdate {
            snapshot: b.clone(),
        },
    );
    // No resting orders → all-new quotes, NO CancelAll.
    assert!(!acts.iter().any(|a| matches!(a, Action::CancelAll)));
    let qs = quotes(&acts);
    assert_eq!(qs.len(), 6); // 3 levels × 2 sides, flat → no flush
    assert_eq!(qs.iter().filter(|q| q.side == Side::Bid).count(), 3);
    assert_eq!(qs.iter().filter(|q| q.side == Side::Ask).count(), 3);
}

#[test]
fn unchanged_book_and_inventory_is_noop() {
    let s = sym();
    let b = book(&s);
    let p = pos(&s, Decimal::zero(), Decimal::zero());
    let mut st = FlatMm::new(cfg());
    let first = st.on_event(
        &ctx(&s, &b, &p, &[]),
        &MarketEvent::BookUpdate {
            snapshot: b.clone(),
        },
    );
    let resting = as_resting(&first);
    // Same book + same inventory + the ladder already resting → nothing to do.
    let second = st.on_event(
        &ctx(&s, &b, &p, &resting),
        &MarketEvent::BookUpdate {
            snapshot: b.clone(),
        },
    );
    assert!(second.is_empty(), "stable state must emit no actions");
}

#[test]
fn stale_levels_cancelled_when_mid_jumps() {
    let s = sym();
    let b = book(&s);
    let p = pos(&s, Decimal::zero(), Decimal::zero());
    let mut st = FlatMm::new(cfg());
    let first = st.on_event(
        &ctx(&s, &b, &p, &[]),
        &MarketEvent::BookUpdate {
            snapshot: b.clone(),
        },
    );
    let resting = as_resting(&first);
    // Mid jumps ~100bps → all old levels stale → cancels + fresh quotes.
    let b2 = Snapshot {
        bids: vec![Level {
            price: Price(Decimal::new(10099, 4)),
            size: Size(Decimal::from(100)),
        }],
        asks: vec![Level {
            price: Price(Decimal::new(10101, 4)),
            size: Size(Decimal::from(100)),
        }],
        ..book(&s)
    };
    let acts = st.on_event(
        &ctx(&s, &b2, &p, &resting),
        &MarketEvent::BookUpdate {
            snapshot: b2.clone(),
        },
    );
    let cancels = acts
        .iter()
        .filter(|a| matches!(a, Action::Cancel(_)))
        .count();
    assert_eq!(cancels, 6, "all 6 stale levels cancelled");
    assert_eq!(quotes(&acts).len(), 6, "6 fresh levels placed");
}

#[test]
fn underwater_frac_zero_suppresses_below_avg_asks() {
    let s = sym();
    let b = book(&s); // mid ≈ 1.0
    // Long 50 @ avg 2.0 → deeply underwater (avg ≫ mid). The ask ladder sits
    // near mid (≈1.0), well below avg → loss dumps unless scaled out.
    let p = pos(&s, Decimal::from(50), Decimal::from(2));
    let mut c = cfg();
    c.underwater_reduce_frac = Decimal::zero(); // suppress
    let mut st = FlatMm::new(c);
    let acts = st.on_event(
        &ctx(&s, &b, &p, &[]),
        &MarketEvent::BookUpdate {
            snapshot: b.clone(),
        },
    );
    let qs = quotes(&acts);
    // frac=0 → below-avg asks scaled to zero size → dropped. Survivors ≥ avg.
    assert!(
        qs.iter()
            .filter(|q| q.side == Side::Ask)
            .all(|q| q.price.0 >= Decimal::from(2)),
        "no reducing ask below avg when underwater_reduce_frac=0"
    );
    assert!(
        qs.iter().any(|q| q.side == Side::Bid),
        "adding side still quotes"
    );
}

#[test]
fn underwater_frac_half_shrinks_below_avg_asks() {
    let s = sym();
    let b = book(&s);
    let p = pos(&s, Decimal::from(50), Decimal::from(2)); // long, underwater
    // Full size (frac=1).
    let mut full = FlatMm::new(cfg());
    let a_full = full.on_event(
        &ctx(&s, &b, &p, &[]),
        &MarketEvent::BookUpdate {
            snapshot: b.clone(),
        },
    );
    // Half size on underwater reducing levels (frac=0.5).
    let mut c = cfg();
    c.underwater_reduce_frac = Decimal::new(5, 1); // 0.5
    let mut half = FlatMm::new(c);
    let a_half = half.on_event(
        &ctx(&s, &b, &p, &[]),
        &MarketEvent::BookUpdate {
            snapshot: b.clone(),
        },
    );
    // A below-avg ladder ask exists in both; the frac=0.5 one is smaller.
    let below = |acts: &[Action]| -> Decimal {
        quotes(acts)
            .iter()
            .filter(|q| q.side == Side::Ask && q.price.0 < Decimal::from(2))
            .map(|q| q.size.0)
            .reduce(Decimal::max)
            .unwrap_or(Decimal::zero())
    };
    let f = below(&a_full);
    let h = below(&a_half);
    assert!(
        f > Decimal::zero() && h > Decimal::zero(),
        "below-avg asks present in both"
    );
    assert!(h < f, "frac=0.5 shrinks the below-avg reducing ask vs full");
}

#[test]
fn flush_frac_half_sizes_flush_to_half_the_bag() {
    let s = sym();
    let b = book(&s); // mid ≈ 1.0
    // Long 50, in profit (avg 0.5 < mid 1.0) → flush rests near the touch.
    let p = pos(&s, Decimal::from(50), Decimal::new(5, 1));
    let mut c = cfg();
    c.flush_frac = Decimal::new(5, 1); // 0.5 → cut half
    let mut st = FlatMm::new(c);
    let acts = st.on_event(
        &ctx(&s, &b, &p, &[]),
        &MarketEvent::BookUpdate {
            snapshot: b.clone(),
        },
    );
    // The flush is the full-bag-fraction reducing order = 50 × 0.5 = 25.
    assert!(
        quotes(&acts)
            .iter()
            .any(|q| q.side == Side::Ask && q.size.0 == Decimal::from(25)),
        "flush sized to half the 50-unit bag"
    );
    // Full-flush control still dumps the whole 50.
    let mut full = FlatMm::new(cfg());
    let a_full = full.on_event(
        &ctx(&s, &b, &p, &[]),
        &MarketEvent::BookUpdate {
            snapshot: b.clone(),
        },
    );
    assert!(
        quotes(&a_full)
            .iter()
            .any(|q| q.side == Side::Ask && q.size.0 == Decimal::from(50)),
        "default flush_frac=1 dumps the whole bag"
    );
}

#[test]
fn bid_heavy_book_shifts_ladder_up() {
    let s = sym();
    let p = pos(&s, Decimal::zero(), Decimal::zero()); // flat → only imbalance moves it
    let mut c = cfg();
    c.reservation_skew_bps = Decimal::zero(); // isolate the imbalance term
    c.imbalance_skew_bps = Decimal::from(5);
    // Balanced book (100/100) → imbalance 0 → no shift.
    let bal = book(&s);
    // Bid-heavy book (200 bid / 50 ask) → imbalance +0.6 → shift UP.
    let heavy = Snapshot {
        bids: vec![Level {
            price: Price(Decimal::new(9999, 4)),
            size: Size(Decimal::from(200)),
        }],
        asks: vec![Level {
            price: Price(Decimal::new(10001, 4)),
            size: Size(Decimal::from(50)),
        }],
        ..book(&s)
    };
    let mut m1 = FlatMm::new(c.clone());
    let a_bal = m1.on_event(
        &ctx(&s, &bal, &p, &[]),
        &MarketEvent::BookUpdate {
            snapshot: bal.clone(),
        },
    );
    let mut m2 = FlatMm::new(c);
    let a_heavy = m2.on_event(
        &ctx(&s, &heavy, &p, &[]),
        &MarketEvent::BookUpdate {
            snapshot: heavy.clone(),
        },
    );
    let top_bid = |a: &[Action]| {
        quotes(a)
            .iter()
            .filter(|q| q.side == Side::Bid)
            .map(|q| q.price.0)
            .reduce(Decimal::max)
            .unwrap()
    };
    assert!(
        top_bid(&a_heavy) > top_bid(&a_bal),
        "bid-heavy book shifts the ladder up vs balanced"
    );
}

#[test]
fn chase_boost_grows_adding_side_when_underwater() {
    let s = sym();
    let b = book(&s); // mid ≈ 1.0
    // Long 50 @ avg 2.0 → underwater (mid 1.0 < avg 2.0). Adding side = Bid.
    let p = pos(&s, Decimal::from(50), Decimal::from(2));
    // Default (anti-martingale): bids shrink.
    let mut def = FlatMm::new(cfg());
    let a_def = def.on_event(
        &ctx(&s, &b, &p, &[]),
        &MarketEvent::BookUpdate {
            snapshot: b.clone(),
        },
    );
    // Chase on: bids grow when underwater.
    let mut c = cfg();
    c.chase_boost_pct = Decimal::from(200);
    let mut ch = FlatMm::new(c);
    let a_ch = ch.on_event(
        &ctx(&s, &b, &p, &[]),
        &MarketEvent::BookUpdate {
            snapshot: b.clone(),
        },
    );
    let bid_total = |acts: &[Action]| -> Decimal {
        quotes(acts)
            .iter()
            .filter(|q| q.side == Side::Bid)
            .map(|q| q.size.0)
            .fold(Decimal::zero(), plus)
    };
    assert!(
        bid_total(&a_ch) > bid_total(&a_def),
        "chase_boost grows the adding (bid) side when long+underwater"
    );
}

#[test]
fn long_skews_reservation_down_and_sells_heavier() {
    let s = sym();
    let b = book(&s);
    let p = pos(&s, Decimal::from(50), Decimal::one());
    let mut st = FlatMm::new(cfg());
    let acts = st.on_event(
        &ctx(&s, &b, &p, &[]),
        &MarketEvent::BookUpdate {
            snapshot: b.clone(),
        },
    );
    let qs = quotes(&acts);
    let max_bid = qs
        .iter()
        .filter(|q| q.side == Side::Bid)
        .map(|q| q.price.0)
        .reduce(Decimal::max)
        .unwrap();
    let min_ask = qs
        .iter()
        .filter(|q| q.side == Side::Ask)
        .map(|q| q.price.0)
        .reduce(Decimal::min)
        .unwrap();
    assert!(max_bid < Decimal::one(), "bids pushed below mid when long");
    assert!(
        min_ask < Decimal::one(),
        "nearest ask sits below mid (sell pressure)"
    );
    let bid_total: Decimal = qs
        .iter()
        .filter(|q| q.side == Side::Bid)
        .map(|q| q.size.0)
        .fold(Decimal::zero(), plus);
    let ask_total: Decimal = qs
        .iter()
        .filter(|q| q.side == Side::Ask)
        .map(|q| q.size.0)
        .fold(Decimal::zero(), plus);
    assert!(
        ask_total > bid_total,
        "reducing side quoted heavier when long"
    );
    assert!(
        qs.iter()
            .any(|q| q.side == Side::Ask && q.size.0 == Decimal::from(50)),
        "flush ask sized to the whole bag"
    );
}

#[test]
fn default_settings_scale_with_the_notional() {
    let c = FlatMmConfig::defaults(Decimal::from(5));
    assert_eq!(c.skew_unit_notional, Decimal::from(100));
    assert_eq!((c.levels, c.inner_bps, c.flush_frac), (5, Decimal::one(), Decimal::one()));
    let largest = Decimal::from_i128_with_scale(79_228_162_514_264_337_593_543_950_335, 0);
    assert!(FlatMmConfig::try_defaults(largest).is_none());
}

#[test]
fn wanted_ladder_of_a_flat_book() {
    let s = sym();
    let b = book(&s);
    let p = pos(&s, Decimal::zero(), Decimal::zero());
    let st = FlatMm::new(cfg());
    let slots = st
        .try_desired_ladder(&ctx(&s, &b, &p, &[]), Decimal::one())
        .unwrap();
    let prices: Vec<(Side, Decimal)> = slots.iter().map(|x| (x.side, x.price)).collect();
    assert_eq!(
        prices,
        vec![
            (Side::Bid, Decimal::new(9999, 4)),
            (Side::Ask, Decimal::new(10001, 4)),
            (Side::Bid, Decimal::new(9998, 4)),
            (Side::Ask, Decimal::new(10002, 4)),
            (Side::Bid, Decimal::new(9997, 4)),
            (Side::Ask, Decimal::new(10003, 4)),
        ]
    );
    for slot in &slots {
        assert_eq!(slot.size, Decimal::from(5).checked_div(slot.price).unwrap());
    }
}

#[test]
fn inventory_ratio_stops_at_one() {
    // Full skew is at 100; a position of 10_000 leans no more than one of 100.
    let s = sym();
    let b = book(&s);
    let st = FlatMm::new(FlatMmConfig {
        flush_bps: Decimal::zero(),
        ..cfg()
    });
    let bids_and_asks = |size: i64| {
        let p = pos(&s, Decimal::from(size), Decimal::one());
        let slots = st
            .try_desired_ladder(&ctx(&s, &b, &p, &[]), Decimal::one())
            .unwrap();
        slots.iter().map(|x| (x.side, x.price, x.size)).collect::<Vec<_>>()
    };
    let full = bids_and_asks(100);
    assert_eq!(full, bids_and_asks(10_000));
    // The adding side has shrunk to nothing and the reducing one has doubled.
    assert!(full.iter().all(|x| x.0 == Side::Ask));
    assert_eq!(full.len(), 3);
}

#[test]
fn resting_order_off_in_size_is_requoted_and_kept() {
    let s = sym();
    let b = book(&s);
    let p = pos(&s, Decimal::zero(), Decimal::zero());
    let mut st = FlatMm::new(cfg());
    let first = st.on_event(
        &ctx(&s, &b, &p, &[]),
        &MarketEvent::BookUpdate {
            snapshot: b.clone(),
        },
    );
    let mut resting = as_resting(&first);
    resting[0].1.size = Size(Decimal::from(50));
    let id = resting[0].0;
    let actions = st.on_quote_rejected(
        &ctx(&s, &b, &p, &resting),
        &resting[1].1.clone(),
        "rejected",
    );
    assert_eq!(actions.len(), 1);
    assert!(matches!(&actions[0], Action::Requote { id: at, .. } if *at == id));
}

#[test]
fn status_reports_plain_numbers() {
    let st = FlatMm::new(FlatMmConfig {
        step_bps: Decimal::new(1500, 3),
        levels: 12,
        ..cfg()
    });
    let metrics = st.status_metrics();
    assert_eq!(metrics[0], ("step_bps", "1.5".to_string()));
    assert_eq!(metrics[1], ("levels", "12".to_string()));
    assert_eq!(metrics[2], ("skew_bps", "2".to_string()));
    assert_eq!(metrics[3], ("flush_bps", "1".to_string()));
}

#[test]
fn notional_update_takes_positive_values_only() {
    let s = sym();
    let b = book(&s);
    let p = pos(&s, Decimal::zero(), Decimal::zero());
    let mut st = FlatMm::new(cfg());
    assert!(st
        .on_notional_updated(&ctx(&s, &b, &p, &[]), Decimal::from(7))
        .is_empty());
    assert_eq!(st.config.notional_per_order, Decimal::from(7));
    let _ = st.on_notional_updated(&ctx(&s, &b, &p, &[]), Decimal::zero());
    assert_eq!(st.config.notional_per_order, Decimal::from(7));
}
