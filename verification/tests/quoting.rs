use std::collections::VecDeque;
use tikr_strategy::market::{
    Asset, Level, MarketEvent, MarketKind, Price, QuoteId, QuoteIntent, Side, Size, Snapshot, Symbol,
    TimeInForce, Timestamp, VenueId,
};
use tikr_strategy::quoting::{
    compute_mid_strict, drop_older, inventory_skew_price, is_size_off, make_post_only_intent,
    post_only_pair, saturating_product, should_requote_drift, should_requote_on_tick_drift,
    try_bps_fraction, try_fraction, try_midpoint, try_price_away, try_weighted_mid,
};
use tikr_strategy::scalping::{
    do_targets_stand, has_interval_passed, inventory_multipliers, is_at_cap, is_cooling_off,
    is_profit_reached, is_within_cap, try_bumped_size, try_inside_targets, try_missing_size,
    try_open_size,
};
use tikr_strategy::strategy::Action;
use tikr_strategy::volatility::{try_estimator_input, VolatilityReading, WARMUP_COUNT};
use tikr_strategy::Decimal;

fn dec(text: &str) -> Decimal {
    let parsed = rust_decimal::Decimal::from_str_exact(text).unwrap();
    Decimal::from_i128_with_scale(parsed.mantissa(), parsed.scale())
}

fn price(text: &str) -> Price {
    Price(dec(text))
}

fn sym() -> Symbol {
    Symbol {
        base: Asset::new("BTC"),
        quote: Asset::new("USDT"),
        venue: VenueId::new("test"),
        kind: MarketKind::Perp,
    }
}

fn book(bid: &str, ask: &str) -> Snapshot {
    Snapshot {
        symbol: sym(),
        bids: vec![Level {
            price: price(bid),
            size: Size(Decimal::one()),
        }],
        asks: vec![Level {
            price: price(ask),
            size: Size(Decimal::one()),
        }],
        ts: Timestamp(7),
    }
}

fn largest() -> Decimal {
    dec("79228162514264337593543950335")
}

fn open(side: Side, size: &str) -> (QuoteId, QuoteIntent) {
    (
        QuoteId(1),
        make_post_only_intent(&sym(), side, price("100"), Size(dec(size))),
    )
}

#[test]
fn products_saturate() {
    assert_eq!(saturating_product(3, 1_000_000), 3_000_000);
    assert_eq!(saturating_product(u64::MAX, 2), u64::MAX);
}

#[test]
fn samples_before_the_cutoff_are_dropped() {
    let mut samples: VecDeque<(u64, Decimal)> =
        VecDeque::from(vec![(1, dec("1")), (5, dec("2")), (3, dec("3"))]);
    drop_older(&mut samples, 4);
    assert_eq!(samples, VecDeque::from(vec![(5, dec("2")), (3, dec("3"))]));
}

#[test]
fn midpoint_of_the_touches() {
    assert_eq!(try_midpoint(dec("100"), dec("101")), Some(dec("100.5")));
    assert_eq!(
        compute_mid_strict(&book("100", "101")),
        Some(Some(price("100.5")))
    );
    let one_sided = Snapshot {
        asks: vec![],
        ..book("100", "101")
    };
    assert_eq!(compute_mid_strict(&one_sided), Some(None));
    assert_eq!(try_midpoint(largest(), largest()), None);
}

#[test]
fn drift_of_more_than_half_a_step_requotes() {
    let last = (Some(Timestamp(0)), Some(price("100")));
    let moved = |to: &str, ts: u64| {
        should_requote_drift(last.0, last.1, price(to), Timestamp(ts), 1000, 10)
    };
    // Half of 10 bps of 100 is 0.05.
    assert_eq!(moved("100.05", 1), Some(false));
    assert_eq!(moved("100.06", 1), Some(true));
    assert_eq!(moved("99.94", 1), Some(true));
    assert_eq!(moved("100", 1_000_000_000), Some(true));
    assert_eq!(
        should_requote_drift(None, None, price("100"), Timestamp(0), 1000, 10),
        Some(true)
    );
}

#[test]
fn target_drift_of_a_tick_requotes() {
    let moved = |bid: &str, ask: &str, ts: u64| {
        should_requote_on_tick_drift(
            Some(price("100")),
            Some(price("101")),
            Some(Timestamp(0)),
            price(bid),
            price(ask),
            Timestamp(ts),
            1000,
            dec("0.1"),
        )
    };
    assert_eq!(moved("100.05", "101", 1), Some(false));
    assert_eq!(moved("100.1", "101", 1), Some(true));
    assert_eq!(moved("100", "100.9", 1), Some(true));
    assert_eq!(moved("100", "101", 1_000_000_000), Some(true));
}

#[test]
fn anything_missing_is_a_cold_start() {
    let after = |bid: Option<Price>, ask: Option<Price>, ts: Option<Timestamp>| {
        should_requote_on_tick_drift(
            bid,
            ask,
            ts,
            price("100"),
            price("101"),
            Timestamp(5),
            1000,
            Decimal::one(),
        )
    };
    let (bid, ask, ts) = (Some(price("100")), Some(price("101")), Some(Timestamp(0)));
    assert_eq!(after(bid, ask, None), Some(true));
    assert_eq!(after(None, ask, ts), Some(true));
    assert_eq!(after(bid, None, ts), Some(true));
    assert_eq!(after(bid, ask, ts), Some(false));
}

#[test]
fn weighted_mid_leans_to_the_thinner_side() {
    let at = |bid_size: &str, ask_size: &str| {
        let total = dec(bid_size).checked_add(dec(ask_size)).unwrap();
        try_weighted_mid(dec("100"), dec(bid_size), dec("110"), dec(ask_size), total).unwrap()
    };
    assert_eq!(at("9", "1"), dec("109"));
    assert_eq!(at("1", "9"), dec("101"));
    assert_eq!(at("2", "2"), dec("105"));
    assert_eq!(at("0", "2"), dec("100"));
    assert!(try_weighted_mid(dec("1"), dec("0"), dec("2"), dec("0"), dec("0")).is_none());
}

#[test]
fn basis_points_as_fractions() {
    assert_eq!(try_bps_fraction(25), Some(dec("0.0025")));
    assert_eq!(try_fraction(dec("2.5")), Some(dec("0.00025")));
}

#[test]
fn sizes_more_than_a_fifth_apart_are_off() {
    assert_eq!(is_size_off(dec("1.2"), dec("1")), Some(false));
    assert_eq!(is_size_off(dec("1.21"), dec("1")), Some(true));
    assert_eq!(is_size_off(dec("0.79"), dec("1")), Some(true));
    assert_eq!(is_size_off(dec("0"), dec("0")), Some(true));
}

#[test]
fn prices_move_away_from_the_middle() {
    assert_eq!(
        try_price_away(dec("100"), Side::Bid, dec("0.01")),
        Some(dec("99"))
    );
    assert_eq!(
        try_price_away(dec("100"), Side::Ask, dec("0.01")),
        Some(dec("101"))
    );
    assert_eq!(try_price_away(largest(), Side::Ask, dec("0.01")), None);
}

#[test]
fn pair_replaces_everything() {
    let actions = post_only_pair(&sym(), price("99"), price("101"), Size(dec("2")));
    assert_eq!(actions.len(), 3);
    assert!(matches!(actions[0], Action::CancelAll));
    match (&actions[1], &actions[2]) {
        (Action::Quote(bid), Action::Quote(ask)) => {
            assert_eq!((bid.side, bid.price, bid.tif), (Side::Bid, price("99"), TimeInForce::PostOnly));
            assert_eq!((ask.side, ask.price, ask.size), (Side::Ask, price("101"), Size(dec("2"))));
        }
        _ => panic!("expected quotes"),
    }
}

#[test]
fn skew_moves_against_the_position() {
    let skew = |pos: &str| inventory_skew_price(dec(pos), 5, dec("2"), dec("0.1"));
    // Half a unit of the cap: floor(0.5 x 5) = 2 ticks.
    assert_eq!(skew("1"), Some(dec("-0.2")));
    assert_eq!(skew("-1"), Some(dec("0.2")));
    assert_eq!(skew("10"), Some(dec("-0.5")));
    assert_eq!(skew("0"), Some(dec("0")));
    assert_eq!(
        inventory_skew_price(dec("1"), 5, dec("0"), dec("0.1")),
        Some(dec("0"))
    );
    assert_eq!(
        inventory_skew_price(dec("1"), 0, dec("2"), dec("0.1")),
        Some(dec("0"))
    );
}

#[test]
fn targets_lie_a_tick_inside_the_touches() {
    let targets = |bid: &str, ask: &str| try_inside_targets(dec("1"), dec("5"), &book(bid, ask));
    assert_eq!(
        targets("100", "110"),
        Some(Some((price("101"), price("109"), dec("105"))))
    );
    assert_eq!(targets("100", "102"), Some(None));
    assert_eq!(targets("100", "100"), Some(None));
    assert_eq!(targets("100000", "100003"), Some(None));
}

#[test]
fn standing_targets_and_intervals() {
    assert!(do_targets_stand(
        Some(price("1.0")),
        Some(price("2")),
        price("1"),
        price("2.0")
    ));
    assert!(!do_targets_stand(None, Some(price("2")), price("1"), price("2")));
    assert!(has_interval_passed(None, Timestamp(0), 5));
    assert!(!has_interval_passed(Some(Timestamp(10)), Timestamp(5_000_009), 5));
    assert!(has_interval_passed(Some(Timestamp(10)), Timestamp(5_000_010), 5));
    assert!(is_cooling_off(Some(Timestamp(10)), Timestamp(11), 5));
    assert!(!is_cooling_off(Some(Timestamp(10)), Timestamp(11), 0));
    assert!(!is_cooling_off(None, Timestamp(11), 5));
}

#[test]
fn reducing_side_is_doubled() {
    assert_eq!(inventory_multipliers(dec("0.1")), (dec("1"), dec("2")));
    assert_eq!(inventory_multipliers(dec("-0.1")), (dec("2"), dec("1")));
    assert_eq!(inventory_multipliers(dec("0")), (dec("1"), dec("1")));
}

#[test]
fn cap_blocks_the_growing_side() {
    assert_eq!(is_at_cap(dec("100"), dec("-2"), dec("50")), Some(true));
    assert_eq!(is_at_cap(dec("100"), dec("-2"), dec("49")), Some(false));
    assert_eq!(is_at_cap(dec("0"), dec("-2"), dec("50")), Some(false));
    assert!(!is_within_cap(dec("1"), true, Side::Bid));
    assert!(is_within_cap(dec("1"), true, Side::Ask));
    assert!(is_within_cap(dec("1"), false, Side::Bid));
}

#[test]
fn open_and_missing_sizes() {
    let quotes = vec![open(Side::Bid, "0.5"), open(Side::Ask, "3"), open(Side::Bid, "1")];
    assert_eq!(try_open_size(&quotes, Side::Bid), Some(dec("1.5")));
    // Four are wanted on the bid, one and a half rest.
    let missing = |step: &str| {
        try_missing_size(&quotes, Side::Bid, dec("400"), price("100"), dec("1"), dec(step))
    };
    assert_eq!(missing("1"), Some(Some(dec("2"))));
    assert_eq!(missing("0.1"), Some(Some(dec("2.5"))));
    assert_eq!(missing("4"), Some(None));
}

#[test]
fn size_is_bumped_by_one_step() {
    let bumped =
        |min: &str| try_bumped_size(dec("100"), price("30"), dec("1"), dec("1"), dec(min));
    assert_eq!(bumped("0"), Some(dec("3")));
    assert_eq!(bumped("90"), Some(dec("3")));
    assert_eq!(bumped("91"), Some(dec("4")));
}

#[test]
fn profit_is_measured_from_the_entry() {
    let reached = |size: &str, mid: &str| {
        is_profit_reached(dec("10"), dec(size), dec("100"), dec(mid))
    };
    assert_eq!(reached("2", "105"), Some(true));
    assert_eq!(reached("2", "104"), Some(false));
    assert_eq!(reached("-2", "95"), Some(true));
    assert_eq!(reached("-2", "105"), Some(false));
    assert_eq!(reached("0", "105"), Some(false));
}

#[test]
fn estimator_sees_two_sided_books_only() {
    let event = MarketEvent::BookUpdate {
        snapshot: book("100", "101"),
    };
    assert_eq!(
        try_estimator_input(&event),
        Some(Some((price("100.5"), Timestamp(7))))
    );
    assert_eq!(
        try_estimator_input(&MarketEvent::Heartbeat { ts: Timestamp(7) }),
        Some(None)
    );
    let cold = VolatilityReading::initial(dec("0.0001"));
    assert!(!cold.is_warm());
    assert!(VolatilityReading {
        samples_seen: WARMUP_COUNT,
        ..cold
    }
    .is_warm());
}
