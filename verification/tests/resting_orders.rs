use tikr_strategy::Decimal;
use tikr_strategy::market::{
    Asset, MarketKind, Price, QuoteId, QuoteIntent, QuoteKind, Side, Size, Symbol, TimeInForce,
    VenueId,
};
use tikr_strategy::spread_scalp::resting_orders::RestingOrders;

fn intent(side: Side, price: i64, size: i64) -> QuoteIntent {
    QuoteIntent {
        symbol: Symbol {
            base: Asset::new("BTC"),
            quote: Asset::new("USDT"),
            venue: VenueId::new("test"),
            kind: MarketKind::Perp,
        },
        side,
        price: Price(Decimal::from(price)),
        size: Size(Decimal::from(size)),
        tif: TimeInForce::PostOnly,
        kind: QuoteKind::Point,
    }
}

#[test]
fn record_and_lookup() {
    let mut ro = RestingOrders::new();
    ro.record_place(&intent(Side::Bid, 100, 1));
    ro.record_place(&intent(Side::Ask, 110, 1));
    assert_eq!(ro.len(), 2);
    assert_eq!(
        ro.current_for(Side::Bid).unwrap().price.0,
        Decimal::from(100)
    );
    assert_eq!(
        ro.current_for(Side::Ask).unwrap().price.0,
        Decimal::from(110)
    );
}

#[test]
fn record_place_overwrites_same_side() {
    let mut ro = RestingOrders::new();
    ro.record_place(&intent(Side::Bid, 100, 1));
    ro.record_place(&intent(Side::Bid, 101, 1));
    assert_eq!(
        ro.current_for(Side::Bid).unwrap().price.0,
        Decimal::from(101)
    );
}

#[test]
fn drop_side_removes() {
    let mut ro = RestingOrders::new();
    ro.record_place(&intent(Side::Bid, 100, 1));
    ro.record_place(&intent(Side::Ask, 110, 1));
    ro.drop_side(Side::Bid);
    assert!(ro.current_for(Side::Bid).is_none());
    assert!(ro.current_for(Side::Ask).is_some());
}

#[test]
fn reconcile_drops_missing_sides() {
    let mut ro = RestingOrders::new();
    ro.record_place(&intent(Side::Bid, 100, 1));
    ro.record_place(&intent(Side::Ask, 110, 1));
    // Venue only reports the bid as still resting.
    let id = QuoteId(1);
    let venue_view = vec![(id, intent(Side::Bid, 100, 1))];
    ro.reconcile(&venue_view);
    assert!(ro.current_for(Side::Bid).is_some());
    assert!(ro.current_for(Side::Ask).is_none());
    assert_eq!(ro.current_for(Side::Bid).unwrap().id, Some(id));
}

/// Partial fill: venue reports the resting order with shrunken
/// size. Reconcile must copy the new size into the tracker so the
/// next policy::diff sees the gap and fires a Replace.
#[test]
fn reconcile_refreshes_size_for_partial_fills() {
    let mut ro = RestingOrders::new();
    ro.record_place(&intent(Side::Bid, 100, 5));
    let id = QuoteId(2);
    // Half-filled: venue now holds 2 of the original 5.
    let venue_view = vec![(id, intent(Side::Bid, 100, 2))];
    ro.reconcile(&venue_view);
    let r = ro.current_for(Side::Bid).expect("bid still tracked");
    assert_eq!(r.size, Size(Decimal::from(2)));
    assert_eq!(r.id, Some(id));
}

#[test]
fn reconciling_twice_is_reconciling_once() {
    let mut ro = RestingOrders::new();
    ro.record_place(&intent(Side::Bid, 100, 5));
    ro.record_place(&intent(Side::Ask, 110, 5));
    let venue_view = vec![
        (QuoteId(3), intent(Side::Bid, 99, 2)),
        (QuoteId(4), intent(Side::Ask, 111, 3)),
    ];
    ro.reconcile(&venue_view);
    let once = (ro.current_for(Side::Bid).copied(), ro.current_for(Side::Ask).copied());
    // The tracked price stays; id and size are the venue's.
    let bid = once.0.unwrap();
    assert_eq!((bid.id, bid.price.0), (Some(QuoteId(3)), Decimal::from(100)));
    ro.reconcile(&venue_view);
    for (side, before) in [(Side::Bid, once.0), (Side::Ask, once.1)] {
        let after = ro.current_for(side).unwrap();
        let before = before.unwrap();
        assert_eq!((after.id, after.price, after.size), (before.id, before.price, before.size));
    }
}

#[test]
fn dropping_everything_leaves_nothing() {
    let mut ro = RestingOrders::new();
    assert!(ro.is_empty());
    ro.record_place(&intent(Side::Bid, 100, 5));
    assert!(!ro.is_empty());
    ro.drop_all();
    assert!(ro.is_empty());
    assert_eq!(ro.len(), 0);
}
