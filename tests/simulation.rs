use trading_engine::account::{trade_stats, TradeRecord};
use trading_engine::signal::Signal;
use trading_engine::simulation::SimulationExecutor;

const UNIT: u64 = 100_000_000;

fn buy(q: u64, p: Option<u64>) -> Signal {
    Signal::Buy { symbol: "BTCUSDT".to_string(), price: p, quantity: q }
}

fn sell(q: u64, p: Option<u64>) -> Signal {
    Signal::Sell { symbol: "BTCUSDT".to_string(), price: p, quantity: q }
}

#[test]
fn buy_then_sell_round_trip() {
    let mut l = SimulationExecutor::new();
    assert_eq!(l.usdt, 10_000 * UNIT);
    assert_eq!(l.btc, 0);
    assert_eq!(l.execute(&buy(UNIT / 10, Some(1_000 * UNIT))), 0);
    assert_eq!(l.usdt, 989_990_000_000);
    assert_eq!(l.btc, UNIT / 10);
    assert_eq!(l.positions[0].entry_price, 1_001 * UNIT);
    let pnl = l.execute(&sell(UNIT / 10, Some(1_100 * UNIT)));
    assert_eq!(l.usdt, 1_000_979_000_000);
    assert_eq!(l.btc, 0);
    assert_eq!(pnl, 979_000_000);
    assert!(l.positions.is_empty());
}

#[test]
fn zero_price_is_skipped() {
    let mut l = SimulationExecutor::new();
    assert_eq!(l.execute(&buy(UNIT, None)), 0);
    assert_eq!(l.execute(&buy(UNIT, Some(0))), 0);
    assert_eq!(l.usdt, 10_000 * UNIT);
    assert!(l.positions.is_empty());
}

#[test]
fn unaffordable_buy_is_skipped() {
    let mut l = SimulationExecutor::new();
    assert_eq!(l.execute(&buy(UNIT, Some(10_000 * UNIT))), 0);
    assert_eq!(l.usdt, 10_000 * UNIT);
    assert_eq!(l.btc, 0);
}

#[test]
fn sell_without_btc_is_skipped() {
    let mut l = SimulationExecutor::new();
    assert_eq!(l.execute(&sell(UNIT, Some(100 * UNIT))), 0);
    assert_eq!(l.usdt, 10_000 * UNIT);
}

#[test]
fn buys_blend_entry_price() {
    let mut l = SimulationExecutor::new();
    l.execute(&buy(UNIT / 10, Some(1_000 * UNIT)));
    l.execute(&buy(UNIT / 10, Some(2_000 * UNIT)));
    assert_eq!(l.positions.len(), 1);
    assert_eq!(l.positions[0].amount, UNIT / 5);
    assert_eq!(l.positions[0].entry_price, 150_150_000_000);
    assert_eq!(l.btc, UNIT / 5);
}

#[test]
fn partial_sell_keeps_position() {
    let mut l = SimulationExecutor::new();
    l.execute(&buy(UNIT / 10, Some(1_000 * UNIT)));
    let pnl = l.execute(&sell(UNIT / 20, Some(1_000 * UNIT)));
    assert_eq!(l.positions[0].amount, UNIT / 20);
    assert_eq!(pnl, 4_995_000_000 - 5_005_000_000);
}

#[test]
fn cancel_changes_nothing() {
    let mut l = SimulationExecutor::new();
    let pnl = l.execute(&Signal::Cancel { symbol: "BTCUSDT".to_string(), order_id: 9 });
    assert_eq!(pnl, 0);
    assert_eq!(l.usdt, 10_000 * UNIT);
    let balances = l.get_balances();
    assert_eq!(balances[0], ("USDT".to_string(), 10_000 * UNIT));
    assert_eq!(balances[1], ("BTC".to_string(), 0));
}

#[test]
fn mark_value_drops_by_fee_only() {
    let mut l = SimulationExecutor::new();
    let p = 1_000 * UNIT;
    let before = l.usdt as u128 * UNIT as u128 + l.btc as u128 * p as u128;
    l.execute(&buy(UNIT / 10, Some(p)));
    let after = l.usdt as u128 * UNIT as u128 + l.btc as u128 * p as u128;
    assert_eq!(before - after, 10_000_000u128 * UNIT as u128);
}

#[test]
fn trade_stats_add_up() {
    let rec = |p: u64, q: u64, c: u64, buyer: bool| TradeRecord {
        price: p * UNIT,
        qty: q,
        commission: c,
        commission_asset: "BNB".to_string(),
        is_buyer: buyer,
    };
    let s = trade_stats(&vec![rec(100, UNIT / 2, 7, true), rec(200, UNIT / 4, 3, false), rec(50, UNIT, 0, true)]);
    assert_eq!(s.total_trades, 3);
    assert_eq!(s.buy_trades, 2);
    assert_eq!(s.sell_trades, 1);
    assert_eq!(s.total_volume, 150 * UNIT as u128);
    assert_eq!(s.total_commission, 10);
    assert_eq!(s.commission_asset, "BNB");
    let empty = trade_stats(&vec![]);
    assert_eq!(empty.total_trades, 0);
    assert_eq!(empty.commission_asset, "");
}
