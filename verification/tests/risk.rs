use tikr_strategy::Decimal;
use tikr_strategy::market::{
    Asset, MarketKind, Notional, Position, Price, Side, SignedSize, Size, Symbol, TimeInForce,
    VenueId,
};
use tikr_strategy::risk::{CloseReason, RiskConfig, RiskDecision, build_close, evaluate};
use tikr_strategy::strategy::Action;

fn sym() -> Symbol {
    Symbol {
        base: Asset::new("BTC"),
        quote: Asset::new("USDT"),
        venue: VenueId::new("test"),
        kind: MarketKind::Perp,
    }
}

fn pos(size: Decimal, entry: i64) -> Position {
    Position {
        symbol: sym(),
        size: SignedSize(size),
        avg_entry: Price(Decimal::from(entry)),
        realized_pnl: Notional(Decimal::zero()),
    }
}

fn cfg(tp_bps: u32, sl_bps: u32) -> RiskConfig {
    RiskConfig {
        take_profit_bps: tp_bps,
        stop_loss_bps: sl_bps,
        take_profit_usdt_legacy: Decimal::zero(),
    }
}

#[test]
fn flat_holds() {
    let p = pos(Decimal::zero(), 100);
    let d = evaluate(&p, Price(Decimal::from(110)), cfg(10, 10));
    assert_eq!(d, RiskDecision::Hold);
}

#[test]
fn long_take_profit_fires_at_threshold() {
    // 100 → 110 = +1000 bps. tp_bps=500 → fires.
    let p = pos(Decimal::one(), 100);
    let d = evaluate(&p, Price(Decimal::from(110)), cfg(500, 0));
    assert!(matches!(
        d,
        RiskDecision::Close {
            side: Side::Ask,
            reason: CloseReason::TakeProfit,
            ..
        }
    ));
}

#[test]
fn short_take_profit_fires_at_threshold() {
    // Short at 110, mid 100 = +909 bps for short (110 - 100)/110.
    let p = pos(Decimal::one().negate(), 110);
    let d = evaluate(&p, Price(Decimal::from(100)), cfg(500, 0));
    assert!(matches!(
        d,
        RiskDecision::Close {
            side: Side::Bid,
            reason: CloseReason::TakeProfit,
            ..
        }
    ));
}

#[test]
fn long_stop_loss_fires_on_adverse_move() {
    // Long at 100, mid 90 = -1000 bps. sl_bps=500 → fires.
    let p = pos(Decimal::one(), 100);
    let d = evaluate(&p, Price(Decimal::from(90)), cfg(0, 500));
    assert!(matches!(
        d,
        RiskDecision::Close {
            side: Side::Ask,
            reason: CloseReason::StopLoss,
            ..
        }
    ));
}

#[test]
fn short_stop_loss_fires_on_adverse_move() {
    // Short at 100, mid 110 = -1000 bps for short. sl_bps=500 → fires.
    let p = pos(Decimal::one().negate(), 100);
    let d = evaluate(&p, Price(Decimal::from(110)), cfg(0, 500));
    assert!(matches!(
        d,
        RiskDecision::Close {
            side: Side::Bid,
            reason: CloseReason::StopLoss,
            ..
        }
    ));
}

#[test]
fn legacy_usdt_path_when_bps_disabled() {
    // pos size=1, entry=100, mid=105 → unrealized = 5. legacy = 4 → fires.
    let p = pos(Decimal::one(), 100);
    let cfg = RiskConfig {
        take_profit_bps: 0,
        stop_loss_bps: 0,
        take_profit_usdt_legacy: Decimal::from(4),
    };
    let d = evaluate(&p, Price(Decimal::from(105)), cfg);
    assert!(matches!(
        d,
        RiskDecision::Close {
            reason: CloseReason::TakeProfit,
            ..
        }
    ));
}

#[test]
fn build_close_fires_ioc_at_opposing_touch() {
    let action = build_close(
        &sym(),
        Side::Ask,
        Size(Decimal::one()),
        Price(Decimal::from(100)),
        Price(Decimal::from(110)),
    );
    let Action::Quote(intent) = action else {
        panic!("expected Quote");
    };
    // Reducing-long via Ask → cross into the bid at 100.
    assert_eq!(intent.price.0, Decimal::from(100));
    assert_eq!(intent.tif, TimeInForce::IOC);
}

#[test]
fn disabled_policy_holds() {
    let p = pos(Decimal::one(), 100);
    for mid in [1, 50, 100, 1_000] {
        assert_eq!(
            evaluate(&p, Price(Decimal::from(mid)), cfg(0, 0)),
            RiskDecision::Hold
        );
    }
}

#[test]
fn close_trades_the_whole_position() {
    let p = pos(Decimal::from(-3), 100);
    match evaluate(&p, Price(Decimal::from(120)), cfg(0, 500)) {
        RiskDecision::Close { side, qty, reason } => {
            assert_eq!((side, qty), (Side::Bid, Size(Decimal::from(3))));
            assert_eq!(reason, CloseReason::StopLoss);
        }
        RiskDecision::Hold => panic!("expected a close"),
    }
}

#[test]
fn short_is_closed_at_the_ask() {
    let Action::Quote(intent) = build_close(
        &sym(),
        Side::Bid,
        Size(Decimal::one()),
        Price(Decimal::from(100)),
        Price(Decimal::from(110)),
    ) else {
        panic!("expected Quote");
    };
    assert_eq!((intent.side, intent.price.0), (Side::Bid, Decimal::from(110)));
}
