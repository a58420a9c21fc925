use trading_engine::pipeline::{decide_trade, portfolio_value, quality_refresh_due, strategy_needs_swap, Coordinator};
use trading_engine::signal::{Opportunity, Signal};
use trading_engine::strategy::StrategyFactory;

#[test]
fn hot_swap_to_new_strategy() {
    assert!(strategy_needs_swap("PaperTrader", "MeanReversion"));
    assert!(!strategy_needs_swap("MeanReversion", "MeanReversion"));
    assert!(StrategyFactory::is_available("MeanReversion"));
    assert!(!StrategyFactory::is_available("Nonexistent"));
}

#[test]
fn refresh_every_hundred() {
    assert!(quality_refresh_due(0));
    assert!(!quality_refresh_due(99));
    assert!(quality_refresh_due(200));
}

#[test]
fn value_at_mark() {
    assert_eq!(portfolio_value(100, 100_000_000, 8_800_000_000_000), 8_800_000_000_100);
}

#[test]
fn trading_gate() {
    let o = Opportunity {
        id: "x".to_string(),
        signal: Signal::Sell { symbol: "BTCUSDT".to_string(), price: Some(1), quantity: 1 },
        score: 900_000,
        risk_score: 100_000,
        reason: "r".to_string(),
        timestamp: 0,
    };
    let off = decide_trade(&vec![o.clone()], false);
    assert!(off.analysis.is_none() && off.best.is_none());
    let on = decide_trade(&vec![o], true);
    assert!(on.best.is_some());
    assert_eq!(on.analysis.unwrap().0[0].risk_score, 80_000);
    assert!(decide_trade(&vec![], true).analysis.is_none());
}

fn trade(id: u64, time: u64) -> trading_engine::market::MarketEvent {
    trading_engine::market::MarketEvent::Trade(trading_engine::market::TradeEvent {
        event_time: time,
        symbol: "BTCUSDT".to_string(),
        trade_id: id,
        price: "100".to_string(),
        qty: "1".to_string(),
        buyer_order_id: 0,
        seller_order_id: 0,
        is_buyer_maker: false,
    })
}

#[test]
fn coordinator_steps() {
    let mut c = Coordinator::new(50_000);
    let first = c.on_event(&trade(1, 10), "PaperTrader", "PaperTrader");
    assert!(first.accepted);
    assert_eq!(first.quality, Some(10_000));
    assert!(!first.swap);
    let dup = c.on_event(&trade(1, 11), "PaperTrader", "MeanReversion");
    assert!(!dup.accepted);
    assert_eq!(dup.quality, Some(5_000));
    assert!(!dup.swap);
    let next = c.on_event(&trade(2, 12), "PaperTrader", "MeanReversion");
    assert!(next.accepted);
    assert_eq!(next.quality, None);
    assert!(next.swap);
    assert_eq!(c.event_count, 2);
}
