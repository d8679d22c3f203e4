use tikr_strategy::Decimal;
use tikr_strategy::market::{Price, Side, Timestamp};
use tikr_strategy::spread_scalp::adverse_tracker::{AdverseConfig, AdverseTracker};

fn ts(ms: u64) -> Timestamp {
    Timestamp(ms.saturating_mul(1_000_000))
}

#[test]
fn disabled_tracker_never_widens() {
    let mut t = AdverseTracker::new(AdverseConfig::disabled());
    t.record_fill(ts(0), Side::Bid, Price(Decimal::from(100)));
    t.process_due_snapshots(ts(1_000_000), Price(Decimal::from(90))); // huge adverse drift
    assert_eq!(t.current_widen_bps(), Decimal::zero());
}

#[test]
fn favourable_drift_does_not_widen() {
    let mut t = AdverseTracker::new(AdverseConfig::sensible());
    // Long fill at 100 → mid 110 after = favourable for the maker.
    t.record_fill(ts(0), Side::Bid, Price(Decimal::from(100)));
    t.process_due_snapshots(ts(5_000), Price(Decimal::from(110)));
    // Adverse EMA should be NEGATIVE (we made money). Widen = 0.
    assert!(t.current_ema_bps() < Decimal::zero());
    assert_eq!(t.current_widen_bps(), Decimal::zero());
}

#[test]
fn adverse_drift_grows_ema_above_threshold() {
    let cfg = AdverseConfig {
        snapshot_window_ms: 5_000,
        ema_half_life_fills: 2,
        threshold_bps: Decimal::from(50),
        max_widen_bps: 10,
    };
    let mut t = AdverseTracker::new(cfg);
    // Five long fills at 100 → mid drops to 99 after 5s each.
    // Per fill adverse: (100 - 99) / 100 × 10_000 = 100 bps.
    for i in 0..5 {
        let fill_t = ts(i * 6_000);
        t.record_fill(fill_t, Side::Bid, Price(Decimal::from(100)));
        t.process_due_snapshots(
            Timestamp(fill_t.0 + 5_000 * 1_000_000),
            Price(Decimal::from(99)),
        );
    }
    // EMA settles near 100 bps; threshold 50 → widen >= 50.
    assert!(t.current_ema_bps() > Decimal::from(50));
    assert!(t.current_widen_bps() > Decimal::zero());
    // Capped at max_widen_bps.
    assert!(t.current_widen_bps() <= Decimal::from(10));
}

#[test]
fn snapshot_not_processed_before_window() {
    let mut t = AdverseTracker::new(AdverseConfig::sensible());
    t.record_fill(ts(0), Side::Bid, Price(Decimal::from(100)));
    // Only 1s in, window is 5s → snapshot not due.
    t.process_due_snapshots(ts(1_000), Price(Decimal::from(50)));
    assert_eq!(t.pending_len(), 1);
    assert!(!t.current_ema_bps().is_zero() || t.pending_len() == 1);
}

#[test]
fn surcharge_is_the_excess_over_the_threshold() {
    let mut t = AdverseTracker::new(AdverseConfig {
        snapshot_window_ms: 5_000,
        ema_half_life_fills: 2,
        threshold_bps: Decimal::from(97),
        max_widen_bps: 10,
    });
    t.record_fill(ts(0), Side::Bid, Price(Decimal::from(100)));
    assert_eq!(t.last_fill_ts(), Some(ts(0)));
    t.process_due_snapshots(ts(5_000), Price(Decimal::from(99)));
    // The first fill seeds the average at 100 bps.
    assert_eq!(t.current_ema_bps(), Decimal::from(100));
    assert_eq!(t.current_widen_bps(), Decimal::from(3));
    assert_eq!(t.pending_len(), 0);
}

#[test]
fn short_fill_suffers_from_a_rise() {
    let mut t = AdverseTracker::new(AdverseConfig::sensible());
    t.record_fill(ts(0), Side::Ask, Price(Decimal::from(100)));
    t.process_due_snapshots(ts(5_000), Price(Decimal::from(101)));
    assert_eq!(t.current_ema_bps(), Decimal::from(100));
}

#[test]
fn due_fill_behind_one_that_is_not_due_is_folded() {
    let mut t = AdverseTracker::new(AdverseConfig::sensible());
    t.record_fill(ts(10_000), Side::Bid, Price(Decimal::from(100)));
    t.record_fill(ts(0), Side::Bid, Price(Decimal::from(100)));
    t.record_fill(ts(11_000), Side::Ask, Price(Decimal::from(100)));
    t.process_due_snapshots(ts(6_000), Price(Decimal::from(99)));
    assert_eq!(t.pending_len(), 2);
    assert_eq!(t.current_ema_bps(), Decimal::from(100));
    // The others keep their order.
    assert_eq!(t.pending[0].fill_ts, ts(10_000));
    assert_eq!(t.pending[1].fill_ts, ts(11_000));
}
