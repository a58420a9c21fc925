use trading_engine::orders::{plan_live_order, truncate_qty, LiveOrder};
use trading_engine::signal::Signal;

const UNIT: u64 = 100_000_000;

fn buy(q: u64, p: Option<u64>) -> Signal {
    Signal::Buy { symbol: "BTCUSDT".to_string(), price: p, quantity: q }
}

fn sell(q: u64, p: Option<u64>) -> Signal {
    Signal::Sell { symbol: "BTCUSDT".to_string(), price: p, quantity: q }
}

#[test]
fn truncates_to_five_decimals() {
    assert_eq!(truncate_qty(123_456_789, 5), 123_456_000);
    assert_eq!(truncate_qty(123_456_789, 8), 123_456_789);
    assert_eq!(truncate_qty(123_456_789, 0), 100_000_000);
}

#[test]
fn small_order_is_skipped() {
    let order = plan_live_order(&buy(UNIT / 100_000, Some(90_000 * UNIT)), 1_000 * UNIT, 0);
    assert!(matches!(order, LiveOrder::Skip));
}

#[test]
fn affordable_buy_goes_out_truncated() {
    let order = plan_live_order(&buy(123_456, Some(90_000 * UNIT)), 1_000 * UNIT, 0);
    match order {
        LiveOrder::MarketBuy { symbol, qty } => {
            assert_eq!(symbol, "BTCUSDT");
            assert_eq!(qty, 123_000);
        }
        _ => panic!("expected a buy"),
    }
}

#[test]
fn unaffordable_buy_is_clamped() {
    let order = plan_live_order(&buy(UNIT, Some(90_000 * UNIT)), 100 * UNIT, 0);
    match order {
        LiveOrder::MarketBuy { qty, .. } => assert_eq!(qty, 110_000),
        _ => panic!("expected a clamped buy"),
    }
}

#[test]
fn clamped_buy_below_minimum_is_skipped() {
    let order = plan_live_order(&buy(UNIT, Some(90_000 * UNIT)), 4 * UNIT, 0);
    assert!(matches!(order, LiveOrder::Skip));
}

#[test]
fn missing_price_uses_default() {
    let order = plan_live_order(&buy(UNIT / 1_000, None), 1_000 * UNIT, 0);
    match order {
        LiveOrder::MarketBuy { qty, .. } => assert_eq!(qty, 100_000),
        _ => panic!("expected a buy"),
    }
}

#[test]
fn oversized_sell_is_clamped_to_balance() {
    let order = plan_live_order(&sell(UNIT, Some(90_000 * UNIT)), 0, 1_234_567);
    match order {
        LiveOrder::MarketSell { qty, .. } => assert_eq!(qty, 1_234_000),
        _ => panic!("expected a sell"),
    }
    let dust = plan_live_order(&sell(UNIT, Some(90_000 * UNIT)), 0, 999);
    assert!(matches!(dust, LiveOrder::Skip));
}

#[test]
fn cancel_passes_through() {
    let order = plan_live_order(&Signal::Cancel { symbol: "ETHUSDT".to_string(), order_id: 42 }, 0, 0);
    match order {
        LiveOrder::Cancel { symbol, order_id } => {
            assert_eq!(symbol, "ETHUSDT");
            assert_eq!(order_id, 42);
        }
        _ => panic!("expected a cancel"),
    }
}
