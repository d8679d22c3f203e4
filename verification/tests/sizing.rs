use tikr_strategy::grid::Grid;
use tikr_strategy::market::{Asset, MarketKind, Price, Side, Size, Symbol, TimeInForce, VenueId};
use tikr_strategy::sizing::{
    try_floored_lot_size, try_leg_size, try_lot_size, try_stepped, try_stepped_up,
};
use tikr_strategy::Decimal;

fn dec(text: &str) -> Decimal {
    let parsed = rust_decimal::Decimal::from_str_exact(text).unwrap();
    Decimal::from_i128_with_scale(parsed.mantissa(), parsed.scale())
}

fn sym() -> Symbol {
    Symbol {
        base: Asset::new("BTC"),
        quote: Asset::new("USDT"),
        venue: VenueId::new("test"),
        kind: MarketKind::Perp,
    }
}

#[test]
fn steps_round_down_and_up() {
    assert_eq!(try_stepped(dec("1.237"), dec("0.01")), Some(dec("1.23")));
    assert_eq!(try_stepped_up(dec("1.231"), dec("0.01")), Some(dec("1.24")));
    assert_eq!(try_stepped(dec("1.237"), Decimal::zero()), Some(dec("1.237")));
    assert_eq!(try_stepped_up(dec("1.237"), dec("-1")), Some(dec("1.237")));
}

#[test]
fn leg_takes_one_step_past_half() {
    assert_eq!(try_leg_size(dec("100"), dec("30"), dec("1")), Some(dec("3")));
    assert_eq!(try_leg_size(dec("6"), dec("10"), dec("1")), Some(dec("1")));
    assert_eq!(try_leg_size(dec("5"), dec("10"), dec("1")), Some(dec("0")));
    assert_eq!(try_leg_size(dec("5"), dec("0"), dec("1")), Some(dec("0")));
}

#[test]
fn lot_is_raised_to_the_minimum_notional() {
    let price = Price(dec("30"));
    assert_eq!(
        try_lot_size(dec("100"), price, dec("1"), dec("0")),
        Some(Size(dec("3")))
    );
    assert_eq!(
        try_lot_size(dec("100"), price, dec("1"), dec("95")),
        Some(Size(dec("4")))
    );
    assert_eq!(
        try_lot_size(dec("100"), Price(dec("0")), dec("1"), dec("95")),
        Some(Size(dec("0")))
    );
    assert_eq!(
        try_floored_lot_size(dec("100"), price, dec("1"), dec("95")),
        Some(Size(dec("4")))
    );
    assert_eq!(
        try_floored_lot_size(dec("200"), price, dec("1"), dec("95")),
        Some(Size(dec("6")))
    );
    assert_eq!(
        try_floored_lot_size(dec("200"), Price(dec("0")), dec("1"), dec("95")),
        None
    );
}

#[test]
fn gridded_order_clears_the_minimum() {
    let grid = Grid::try_new(dec("0.1"), dec("0.001"), dec("5")).unwrap();
    let order = grid
        .try_intent(&sym(), Side::Bid, dec("100.26"), dec("0.0127"))
        .unwrap();
    assert_eq!(order.price.0, dec("100.3"));
    assert_eq!(order.size.0, dec("0.050"));
    assert!(order.size.0.checked_mul(order.price.0).unwrap() >= dec("5"));
    assert_eq!(order.side, Side::Bid);
    assert_eq!(order.tif, TimeInForce::PostOnly);
}

#[test]
fn grid_without_increments_changes_nothing() {
    let grid = Grid::try_new(dec("0"), dec("0"), dec("0")).unwrap();
    let order = grid
        .try_intent(&sym(), Side::Ask, dec("100.26"), dec("0.0127"))
        .unwrap();
    assert_eq!(order.price.0, dec("100.26"));
    assert_eq!(order.size.0, dec("0.0127"));
    assert_eq!(order.side, Side::Ask);
}

#[test]
fn tick_rounding_takes_half_to_even() {
    let grid = Grid::try_new(dec("1"), dec("0"), dec("0")).unwrap();
    let low = grid.try_intent(&sym(), Side::Bid, dec("2.5"), dec("1")).unwrap();
    let high = grid.try_intent(&sym(), Side::Bid, dec("3.5"), dec("1")).unwrap();
    assert_eq!(low.price.0, dec("2"));
    assert_eq!(high.price.0, dec("4"));
}

#[test]
fn off_market_order_is_rounded_away() {
    let grid = Grid::try_new(Decimal::one(), dec("0.1"), Decimal::zero()).unwrap();
    let at = |side: Side, price: &str| {
        let order = grid.try_intent_off_market(&sym(), side, dec(price), dec("1.26")).unwrap();
        assert_eq!(order.size.0, dec("1.2"));
        order.price.0
    };
    assert_eq!(at(Side::Ask, "100.4"), dec("101"));
    assert_eq!(at(Side::Bid, "100.6"), dec("100"));
    assert_eq!(at(Side::Ask, "100"), dec("100"));
    assert_eq!(at(Side::Bid, "100"), dec("100"));
    let thirds = Grid::try_new(dec("0.7"), Decimal::zero(), Decimal::zero()).unwrap();
    let order = thirds.try_intent_off_market(&sym(), Side::Ask, dec("2.1"), dec("1")).unwrap();
    assert_eq!(order.price.0, dec("2.1"));
}

#[test]
fn snapping_moves_by_less_than_a_step() {
    for n in 0i64..500 {
        for step in [dec("0.3"), dec("0.07"), dec("1")] {
            let a = Decimal::new(n, 2);
            let down = try_stepped(a, step).unwrap();
            let up = try_stepped_up(a, step).unwrap();
            assert!(down <= a && a < down.checked_add(step).unwrap());
            assert!(up >= a && up < a.checked_add(step).unwrap());
        }
    }
}
