use tikr_strategy::Decimal;
use tikr_strategy::market::{
    Asset, MarketKind, Price, QuoteId, QuoteIntent, QuoteKind, Side, Size, Symbol, TimeInForce,
    VenueId,
};
use tikr_strategy::strategy::Action;

fn make_symbol() -> Symbol {
    Symbol {
        base: Asset::new("BTC"),
        quote: Asset::new("USDT"),
        venue: VenueId::new("test"),
        kind: MarketKind::Spot,
    }
}

fn make_intent(sym: &Symbol) -> QuoteIntent {
    QuoteIntent {
        symbol: sym.clone(),
        side: Side::Bid,
        price: Price(Decimal::new(60_000, 0)),
        size: Size(Decimal::new(1, 1)),
        tif: TimeInForce::PostOnly,
        kind: QuoteKind::Point,
    }
}

#[test]
fn action_variants_clone_debug() {
    let sym = make_symbol();
    let intent = make_intent(&sym);
    let id = QuoteId(1);

    let variants: Vec<Action> = vec![
        Action::Quote(intent.clone()),
        Action::Requote {
            id,
            intent: intent.clone(),
        },
        Action::Cancel(id),
        Action::CancelAll,
        Action::NoOp,
    ];

    for a in &variants {
        let cloned = a.clone();
        let dbg = format!("{cloned:?}");
        assert!(!dbg.is_empty());
    }
}
