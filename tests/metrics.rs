use trading_engine::futures::{is_valid_leverage, MarginType, PositionSide};
use trading_engine::metrics::SystemMetrics;

#[test]
fn latencies_are_counted() {
    let mut m = SystemMetrics::new();
    assert_eq!(m.strategy_samples(), 0);
    assert!(m.record_strategy_latency(120));
    assert!(m.record_strategy_latency(80));
    assert!(m.record_execution_latency(5_000));
    assert_eq!(m.strategy_samples(), 2);
    assert_eq!(m.execution_samples(), 1);
    assert_eq!(m.strategy_latency.inner.max(), 120);
}

#[test]
fn futures_settings() {
    assert_eq!(MarginType::Cross.as_str(), "CROSSED");
    assert_eq!(MarginType::Isolated.as_str(), "ISOLATED");
    assert_eq!(PositionSide::Long.as_str(), "LONG");
    assert!(is_valid_leverage(1));
    assert!(is_valid_leverage(125));
    assert!(!is_valid_leverage(0));
    assert!(!is_valid_leverage(126));
}
