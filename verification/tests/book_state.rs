use tikr_strategy::Decimal;
use tikr_strategy::market::{
    Asset, Level, MarketKind, Price, Size, Snapshot, Symbol, Timestamp, VenueId,
};
use tikr_strategy::spread_scalp::book_state::{Top, size_at_least_min_notional};

fn snap(bid: i64, bsz: i64, ask: i64, asz: i64) -> Snapshot {
    let symbol = Symbol {
        base: Asset::new("BTC"),
        quote: Asset::new("USDT"),
        venue: VenueId::new("test"),
        kind: MarketKind::Perp,
    };
    Snapshot {
        symbol,
        bids: vec![Level {
            price: Price(Decimal::from(bid)),
            size: Size(Decimal::from(bsz)),
        }],
        asks: vec![Level {
            price: Price(Decimal::from(ask)),
            size: Size(Decimal::from(asz)),
        }],
        ts: Timestamp(0),
    }
}

#[test]
fn mid_and_spread_bps() {
    let top = Top::from_snapshot(&snap(100, 1, 110, 1)).unwrap();
    assert_eq!(top.mid().0, Decimal::from(105));
    // (110 - 100) / 105 × 10000 ≈ 952.4
    let bps = top.spread_bps().unwrap();
    assert!(bps > Decimal::from(950) && bps < Decimal::from(955));
}

#[test]
fn microprice_pulls_toward_thinner_side() {
    // ask-heavy book: thinner bid → microprice pulled toward ask.
    let top = Top::from_snapshot(&snap(100, 9, 110, 1)).unwrap();
    let micro = top.microprice().0;
    let mid = top.mid().0;
    // (9·110 + 1·100) / 10 = 109. Mid = 105. Micro > mid.
    assert!(micro > mid);
    assert_eq!(micro, Decimal::from(109));
}

#[test]
fn microprice_falls_back_to_mid_on_empty_book() {
    let top = Top::from_snapshot(&snap(100, 0, 110, 0)).unwrap();
    assert_eq!(top.microprice().0, top.mid().0);
}

#[test]
fn book_state_empty_book_returns_none() {
    let symbol = Symbol {
        base: Asset::new("BTC"),
        quote: Asset::new("USDT"),
        venue: VenueId::new("test"),
        kind: MarketKind::Perp,
    };
    let s = Snapshot {
        symbol,
        bids: vec![],
        asks: vec![],
        ts: Timestamp(0),
    };
    assert!(Top::from_snapshot(&s).is_none());
}

#[test]
fn min_notional_bumps_in_one_shot() {
    // raw=1, price=1, min=10, step=1 → need 9 extra steps, not 1.
    let bumped = size_at_least_min_notional(
        Decimal::from(1),
        Price(Decimal::from(1)),
        Decimal::from(10),
        Decimal::from(1),
    );
    assert_eq!(bumped, Decimal::from(10));
}

#[test]
fn min_notional_passthrough_when_already_satisfied() {
    let raw = Decimal::from(5);
    let bumped = size_at_least_min_notional(
        raw,
        Price(Decimal::from(3)),
        Decimal::from(10),
        Decimal::from(1),
    );
    assert_eq!(bumped, raw);
}

#[test]
fn size_is_raised_by_the_fewest_steps() {
    let raise = |raw: i64, price: i64, min: i64, step: i64| {
        size_at_least_min_notional(
            Decimal::new(raw, 1),
            Price(Decimal::new(price, 1)),
            Decimal::from(min),
            Decimal::new(step, 1),
        )
    };
    // 0.1 x 30 = 3: two steps of 0.1 make 9, three make 12.
    assert_eq!(raise(1, 300, 10, 1), Decimal::new(4, 1));
    // 0.1 x 30 = 3: three steps of 0.1 make exactly 12.
    assert_eq!(raise(1, 300, 12, 1), Decimal::new(4, 1));
    // A third of a step is still a step.
    assert_eq!(raise(0, 100, 1, 3), Decimal::new(3, 1));
    for raw in 0i64..20 {
        for price in 1i64..40 {
            for step in 1i64..4 {
                let min = Decimal::from(7);
                let worth = |size: Decimal| size.checked_mul(Decimal::new(price, 1)).unwrap();
                let size = raise(raw, price, 7, step);
                assert!(worth(size) >= min);
                let fewer = size.checked_sub(Decimal::new(step, 1)).unwrap();
                assert!(fewer < Decimal::new(raw, 1) || worth(fewer) < min);
            }
        }
    }
}

#[test]
fn microprice_lies_between_the_touches() {
    for (bid_size, ask_size) in [(0i64, 3i64), (3, 0), (1, 2), (2, 1), (5, 5)] {
        let top = Top::from_snapshot(&snap(100, bid_size, 101, ask_size)).unwrap();
        let micro = top.microprice().0;
        assert!(micro >= top.bid.0 && micro <= top.ask.0);
        assert_eq!(bid_size > ask_size, micro > top.mid().0);
    }
}
