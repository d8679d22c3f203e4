use tikr_strategy::Decimal;
use tikr_strategy::market::{
    Asset, MarketKind, Price, QuoteId, QuoteIntent, QuoteKind, Side, Size, Symbol, TimeInForce,
    VenueId,
};
use tikr_strategy::spread_scalp::policy::{DiffDecision, apply, diff, drop_side};
use tikr_strategy::spread_scalp::resting_orders::Resting;
use tikr_strategy::strategy::Action;

fn resting(price: i64, size: i64, id: Option<QuoteId>) -> Resting {
    Resting {
        id,
        side: Side::Bid,
        price: Price(Decimal::from(price)),
        size: Size(Decimal::from(size)),
    }
}

fn intent(price: i64, size: i64) -> QuoteIntent {
    QuoteIntent {
        symbol: Symbol {
            base: Asset::new("BTC"),
            quote: Asset::new("USDT"),
            venue: VenueId::new("test"),
            kind: MarketKind::Perp,
        },
        side: Side::Bid,
        price: Price(Decimal::from(price)),
        size: Size(Decimal::from(size)),
        tif: TimeInForce::PostOnly,
        kind: QuoteKind::Point,
    }
}

#[test]
fn nothing_resting_returns_place() {
    let d = diff(
        None,
        Price(Decimal::from(100)),
        Size(Decimal::from(1)),
        Decimal::zero(),
        Decimal::from(1),
    );
    assert_eq!(d, DiffDecision::Place);
    assert_eq!(apply(d, intent(100, 1)).len(), 1);
}

#[test]
fn exact_match_returns_unchanged() {
    let id = QuoteId(1);
    let r = resting(100, 1, Some(id));
    let d = diff(
        Some(&r),
        Price(Decimal::from(100)),
        Size(Decimal::from(1)),
        Decimal::zero(),
        Decimal::from(1),
    );
    assert_eq!(d, DiffDecision::Unchanged);
    assert!(apply(d, intent(100, 1)).is_empty());
}

#[test]
fn price_diff_within_tolerance_unchanged() {
    let id = QuoteId(2);
    let r = resting(100, 1, Some(id));
    // Target 101, tolerance 1 tick — within band.
    let d = diff(
        Some(&r),
        Price(Decimal::from(101)),
        Size(Decimal::from(1)),
        Decimal::one(),
        Decimal::from(1),
    );
    assert_eq!(d, DiffDecision::Unchanged);
}

#[test]
fn price_diff_beyond_tolerance_replaces() {
    let id = QuoteId(3);
    let r = resting(100, 1, Some(id));
    let d = diff(
        Some(&r),
        Price(Decimal::from(105)),
        Size(Decimal::from(1)),
        Decimal::one(),
        Decimal::from(1),
    );
    assert_eq!(d, DiffDecision::Replace(id));
    let actions = apply(d, intent(105, 1));
    assert_eq!(actions.len(), 2);
    assert!(matches!(actions[0], Action::Cancel(_)));
    assert!(matches!(actions[1], Action::Quote(_)));
}

#[test]
fn shadow_path_when_no_venue_id_yet() {
    let r = resting(100, 1, None);
    let d = diff(
        Some(&r),
        Price(Decimal::from(105)),
        Size(Decimal::from(1)),
        Decimal::zero(),
        Decimal::from(1),
    );
    assert_eq!(d, DiffDecision::PlaceShadow);
    // Just one action — let the in-flight intent get reconciled.
    assert_eq!(apply(d, intent(105, 1)).len(), 1);
}

#[test]
fn drop_side_emits_cancel_when_id_known() {
    let id = QuoteId(4);
    let r = resting(100, 1, Some(id));
    let actions = drop_side(Some(&r));
    assert_eq!(actions.len(), 1);
    assert!(matches!(actions[0], Action::Cancel(_)));
}

#[test]
fn drop_side_noop_when_inflight() {
    let r = resting(100, 1, None);
    assert!(drop_side(Some(&r)).is_empty());
}

#[test]
fn size_change_replaces() {
    let id = QuoteId(5);
    let r = resting(100, 1, Some(id));
    let d = diff(
        Some(&r),
        Price(Decimal::from(100)),
        Size(Decimal::from(2)),
        Decimal::one(),
        Decimal::from(1),
    );
    assert_eq!(d, DiffDecision::Replace(id));
}

#[test]
fn nothing_to_drop_without_a_quote() {
    assert!(drop_side(None).is_empty());
}
