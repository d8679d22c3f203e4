use tikr_strategy::Decimal;
use tikr_strategy::mantis::{Mantis, MantisConfig};
use tikr_strategy::market::{
    Asset, Fill, Level, MarketEvent, MarketKind, Notional, Position, Price, QuoteId, QuoteIntent,
    QuoteKind, Side, SignedSize, Size, Snapshot, Symbol, TimeInForce, Timestamp, VenueId,
};
use tikr_strategy::strategy::{Action, Strategy, StrategyContext};

fn dec(text: &str) -> Decimal {
    let parsed = rust_decimal::Decimal::from_str_exact(text).unwrap();
    Decimal::from_i128_with_scale(parsed.mantissa(), parsed.scale())
}

fn sym() -> Symbol {
    Symbol {
        base: Asset::new("SOL"),
        quote: Asset::new("USDC"),
        venue: VenueId::new("test"),
        kind: MarketKind::Perp,
    }
}

fn cfg(tick_offset: i32, reopen: u32) -> MantisConfig {
    MantisConfig {
        notional_per_order: Decimal::from(10),
        tick_size: Decimal::new(1, 2), // 0.01
        step_size: Decimal::new(1, 2),
        min_notional: Decimal::from(5),
        min_spread_bps: Decimal::one(),
        tick_offset,
        reopen_distance_ticks: reopen,
        max_position_usdt: Decimal::zero(),
    }
}

fn book(bid: &str, ask: &str) -> Snapshot {
    Snapshot {
        symbol: sym(),
        bids: vec![Level {
            price: Price(dec(bid)),
            size: Size(Decimal::from(100)),
        }],
        asks: vec![Level {
            price: Price(dec(ask)),
            size: Size(Decimal::from(100)),
        }],
        ts: Timestamp(0),
    }
}

fn pos(size: &str, entry: &str) -> Position {
    Position {
        symbol: sym(),
        size: SignedSize(dec(size)),
        avg_entry: Price(dec(entry)),
        realized_pnl: Notional(Decimal::zero()),
    }
}

fn intent(side: Side, price: &str) -> QuoteIntent {
    QuoteIntent {
        symbol: sym(),
        side,
        price: Price(dec(price)),
        size: Size(dec("0.1")),
        tif: TimeInForce::PostOnly,
        kind: QuoteKind::Point,
    }
}

fn fill(side: Side, price: &str) -> Fill {
    Fill {
        quote_id: QuoteId(1),
        price: Price(dec(price)),
        size: Size(dec("0.1")),
        fee_asset: Asset::new("USDC"),
        fee_amount: Decimal::zero(),
        fee_quote: Notional(Decimal::zero()),
        side,
        ts: Timestamp(0),
        is_full: true,
        trade_id: None,
    }
}

struct Ctx {
    s: Symbol,
    p: Position,
    bk: Snapshot,
    open: Vec<(QuoteId, QuoteIntent)>,
    fills: Vec<Fill>,
}
impl Ctx {
    fn ctx(&self) -> StrategyContext<'_> {
        StrategyContext {
            symbol: &self.s,
            now: Timestamp(0),
            position: &self.p,
            recent_fills: &self.fills,
            latest_book: &self.bk,
            open_quotes: &self.open,
            recent_liqs: &[],
        }
    }
}

fn hb() -> MarketEvent {
    MarketEvent::Heartbeat { ts: Timestamp(0) }
}

fn quoted(acts: &[Action], side: Side) -> Option<Price> {
    acts.iter().find_map(|a| match a {
        Action::Quote(q) if q.side == side => Some(q.price),
        _ => None,
    })
}

#[test]
fn flat_opens_pair_at_touch() {
    let mut m = Mantis::new(cfg(0, 1));
    let c = Ctx {
        s: sym(),
        p: pos("0", "0"),
        bk: book("100.00", "100.10"),
        open: vec![],
        fills: vec![],
    };
    let acts = m.on_event(&c.ctx(), &hb());
    assert_eq!(
        quoted(&acts, Side::Bid).unwrap().0,
        dec("100.00")
    );
    assert_eq!(
        quoted(&acts, Side::Ask).unwrap().0,
        dec("100.10")
    );
}

#[test]
fn fill_holds_only_close_leg_no_refill() {
    let mut m = Mantis::new(cfg(0, 1));
    // First, flat → open the pair so active_pair is recorded.
    let c0 = Ctx {
        s: sym(),
        p: pos("0", "0"),
        bk: book("100.00", "100.10"),
        open: vec![],
        fills: vec![],
    };
    let _ = m.on_event(&c0.ctx(), &hb());
    // Bid fills → long. Only the ask (close) leg remains resting.
    let c1 = Ctx {
        s: sym(),
        p: pos("0.1", "100.00"),
        bk: book("100.00", "100.10"),
        open: vec![(QuoteId(2), intent(Side::Ask, "100.10"))],
        fills: vec![fill(Side::Bid, "100.00")],
    };
    let acts = m.on_event(&c1.ctx(), &MarketEvent::Fill(fill(Side::Bid, "100.00")));
    // Close ask already resting at 100.10 → kept (no actions); crucially
    // NO new bid is placed (no refill of the filled side).
    assert!(acts.is_empty(), "close leg kept, no refill; got {acts:?}");
}

#[test]
fn holding_replaces_missing_close_leg() {
    let mut m = Mantis::new(cfg(0, 1));
    let c0 = Ctx {
        s: sym(),
        p: pos("0", "0"),
        bk: book("100.00", "100.10"),
        open: vec![],
        fills: vec![],
    };
    let _ = m.on_event(&c0.ctx(), &hb()); // active_pair = (100.00, 100.10)
    // Long, but the close ask got silently cancelled → re-place it at the
    // original ask price (the fixed TP), not at the moved touch.
    let c1 = Ctx {
        s: sym(),
        p: pos("0.1", "100.00"),
        bk: book("100.05", "100.15"), // touch moved up
        open: vec![],
        fills: vec![],
    };
    let acts = m.on_event(&c1.ctx(), &hb());
    let ask = quoted(&acts, Side::Ask).expect("close ask replaced");
    assert_eq!(
        ask.0,
        dec("100.10"),
        "TP stays at original price"
    );
    assert!(
        quoted(&acts, Side::Bid).is_none(),
        "no add-side bid while holding"
    );
}

#[test]
fn cooldown_blocks_reopen_until_price_moves() {
    let mut m = Mantis::new(cfg(0, 5)); // 5 ticks × 0.01 = 0.05
    // Round trip done: flat, last fill at 100.10 (cooldown armed via fills).
    let c1 = Ctx {
        s: sym(),
        p: pos("0", "0"),
        bk: book("100.06", "100.12"), // mid 100.09; |100.09-100.10|=0.01 < 0.05
        open: vec![],
        fills: vec![fill(Side::Ask, "100.10")],
    };
    let acts = m.on_event(&c1.ctx(), &MarketEvent::Fill(fill(Side::Ask, "100.10")));
    assert!(acts.is_empty(), "in cooldown → no new pair; got {acts:?}");
    // Price moves away (mid 100.16, |100.16-100.10|=0.06 ≥ 0.05) → reopen.
    let c2 = Ctx {
        s: sym(),
        p: pos("0", "0"),
        bk: book("100.13", "100.19"),
        open: vec![],
        fills: vec![],
    };
    let acts2 = m.on_event(&c2.ctx(), &hb());
    assert!(
        quoted(&acts2, Side::Bid).is_some(),
        "reopened after move; got {acts2:?}"
    );
    assert!(quoted(&acts2, Side::Ask).is_some());
}

#[test]
fn below_min_spread_opens_nothing() {
    let mut m = Mantis::new(cfg(0, 1));
    let mut c = Ctx {
        s: sym(),
        p: pos("0", "0"),
        bk: book("100.00", "100.001"), // ~0.1 bp spread
        open: vec![],
        fills: vec![],
    };
    // raise min_spread so that nothing is opened
    m.config.min_spread_bps = Decimal::from(5);
    let acts = m.on_event(&c.ctx(), &hb());
    assert!(acts.is_empty());
    // with a stale resting quote → cancel it
    c.open = vec![(QuoteId(3), intent(Side::Bid, "100.00"))];
    let acts = m.on_event(&c.ctx(), &hb());
    assert!(matches!(acts.as_slice(), [Action::Cancel(_)]));
}

#[test]
fn inside_offset_steps_one_tick_in() {
    let mut m = Mantis::new(cfg(-1, 1));
    let c = Ctx {
        s: sym(),
        p: pos("0", "0"),
        bk: book("100.00", "100.10"),
        open: vec![],
        fills: vec![],
    };
    let acts = m.on_event(&c.ctx(), &hb());
    assert_eq!(
        quoted(&acts, Side::Bid).unwrap().0,
        dec("100.01")
    );
    assert_eq!(
        quoted(&acts, Side::Ask).unwrap().0,
        dec("100.09")
    );
}

#[test]
fn inside_offset_that_would_cross_opens_nothing() {
    let mut m = Mantis::new(cfg(-6, 1));
    let c = Ctx {
        s: sym(),
        p: pos("0", "0"),
        bk: book("100.00", "100.10"),
        open: vec![],
        fills: vec![],
    };
    // Six ticks in from either side the two targets pass each other.
    let acts = m.on_event(&c.ctx(), &hb());
    assert!(acts.is_empty());
    assert_eq!(m.active_pair, None);
}

#[test]
fn pair_past_the_cap_is_not_opened() {
    let quotes_with = |cap: i64, position: Position| {
        let mut m = Mantis::new(MantisConfig {
            max_position_usdt: Decimal::from(cap),
            ..cfg(0, 0)
        });
        let c = Ctx {
            s: sym(),
            p: position,
            bk: book("100.00", "100.05"),
            open: vec![],
            fills: vec![],
        };
        m.on_event(&c.ctx(), &hb()).len()
    };
    // Each leg is worth about 10.
    assert_eq!(quotes_with(0, pos("0", "0")), 2);
    assert_eq!(quotes_with(11, pos("0", "0")), 2);
    assert_eq!(quotes_with(9, pos("0", "0")), 0);
    // The closing leg is kept all the same.
    assert_eq!(quotes_with(9, pos("0.1", "100")), 1);
}
