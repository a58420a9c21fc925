use trading_engine::market::TradeEvent;
use trading_engine::signal::Signal;
use trading_engine::state_machine::{StateMachine, SystemState};
use trading_engine::strategy::{advance_lifecycle, signal_allowed, BuyAndHold, StrategyFactory};

fn trade(time: u64, price: &str) -> TradeEvent {
    TradeEvent {
        event_time: time,
        symbol: "BTCUSDT".to_string(),
        trade_id: 1,
        price: price.to_string(),
        qty: "0.1".to_string(),
        buyer_order_id: 1,
        seller_order_id: 2,
        is_buyer_maker: false,
    }
}

#[test]
fn registry_lists_all_strategies() {
    let names = StrategyFactory::get_available_strategies();
    assert_eq!(names.len(), 26);
    assert_eq!(names[0], "MeanReversion");
    assert_eq!(names[1], "PaperTrader");
    assert_eq!(names[25], "BuyAndHold");
}

#[test]
fn buy_and_hold_buys_once() {
    let mut s = BuyAndHold::new();
    assert_eq!(s.name(), "BuyAndHold");
    assert_eq!(s.get_features()[0], ("Bought".to_string(), "false".to_string()));
    let opps = s.process_trade(&trade(1_700, "42000.5"));
    assert_eq!(opps.len(), 1);
    assert_eq!(opps[0].id, "buy_hold_1700");
    assert_eq!(opps[0].score, 1_000_000);
    assert_eq!(opps[0].risk_score, 0);
    match &opps[0].signal {
        Signal::Buy { symbol, price, quantity } => {
            assert_eq!(symbol, "BTCUSDT");
            assert_eq!(*price, Some(4_200_050_000_000));
            assert_eq!(*quantity, 10_000_000);
        }
        _ => panic!("expected a buy"),
    }
    assert!(s.process_trade(&trade(1_800, "1")).is_empty());
    assert_eq!(s.get_features()[0].1, "true");
}

#[test]
fn emission_needs_trading_and_cooldown() {
    assert!(signal_allowed(SystemState::Trading, 10_000, 1_000, 5_000));
    assert!(!signal_allowed(SystemState::Trading, 6_000, 1_000, 5_000));
    assert!(!signal_allowed(SystemState::Cooldown, 10_000, 1_000, 5_000));
}

#[test]
fn lifecycle_steps() {
    let mut sm = StateMachine::new(0);
    advance_lifecycle(&mut sm, 100);
    assert_eq!(sm.get_state(), SystemState::Accumulating);
    advance_lifecycle(&mut sm, 4_000);
    assert_eq!(sm.get_state(), SystemState::Accumulating);
    advance_lifecycle(&mut sm, 5_100);
    assert_eq!(sm.get_state(), SystemState::Trading);
}
