use trading_engine::backtest::{
    market_type_from_label, parse_symbol_spec, progress_at, progress_interval, sample_rate, should_replay,
    trade_fee, BacktestTally, ProgressEvent,
};
use trading_engine::downloader::MarketType;
use trading_engine::signal::Signal;

#[test]
fn schedule_parameters() {
    assert_eq!(progress_interval(5), 1);
    assert_eq!(progress_interval(1_000), 100);
    assert_eq!(sample_rate(1_999), 1);
    assert_eq!(sample_rate(10_000), 5);
    assert!(should_replay(3, false));
    assert!(!should_replay(3, true));
    assert!(should_replay(20, true));
    assert_eq!(progress_at(0, 1_000), None);
    assert_eq!(progress_at(200, 1_000), Some(20));
    assert_eq!(progress_at(201, 1_000), None);
}

#[test]
fn tally_tracks_wins_losses_and_drawdown() {
    let mut t = BacktestTally::new();
    t.record_trade(1_000, 10);
    t.record_trade(-500, 10);
    t.record_trade(0, 10);
    assert_eq!(t.total_trades, 3);
    assert_eq!(t.win_trades, 1);
    assert_eq!(t.loss_trades, 1);
    assert_eq!(t.realized_pnl, 470);
    assert_eq!(t.gross_profit, 1_000);
    assert_eq!(t.gross_loss, 500);
    assert_eq!(t.total_fees, 30);
    assert_eq!(t.peak_pnl, 990);
    assert_eq!(t.max_drawdown, 520);
    assert_eq!(t.trade_pnls, vec![990, -510]);
    assert_eq!(t.win_rate_bp(), 3_333);
}

#[test]
fn empty_tally_has_no_win_rate() {
    assert_eq!(BacktestTally::new().win_rate_bp(), 0);
}

#[test]
fn symbol_specs() {
    let (m, s) = parse_symbol_spec("futures:ETHUSDT").unwrap();
    assert_eq!(m, MarketType::Futures);
    assert_eq!(s, "ETHUSDT");
    let (m, s) = parse_symbol_spec("SPOT:BTCUSDT").unwrap();
    assert_eq!(m, MarketType::Spot);
    assert_eq!(s, "BTCUSDT");
    assert!(parse_symbol_spec("BTCUSDT").is_none());
    assert!(parse_symbol_spec("a:b:c").is_none());
    assert_eq!(market_type_from_label("FUTURES"), MarketType::Futures);
    assert_eq!(market_type_from_label("futures"), MarketType::Spot);
}

#[test]
fn progress_events() {
    let f = vec![("k".to_string(), "v".to_string())];
    let r = ProgressEvent::running("BTCUSDT".to_string(), "HullMA".to_string(), 40, f.clone());
    assert_eq!(r.status, "running");
    assert_eq!(r.progress_pct, 40);
    assert_eq!(r.features, f);
    let c = ProgressEvent::completed("BTCUSDT".to_string(), "HullMA".to_string(), vec![]);
    assert_eq!(c.status, "completed");
    assert_eq!(c.progress_pct, 100);
}

#[test]
fn fee_is_a_thousandth_of_notional() {
    let buy = Signal::Buy { symbol: "BTCUSDT".to_string(), price: None, quantity: 10_000_000 };
    assert_eq!(trade_fee(&buy, 100_000_000_000), 10_000_000);
    let cancel = Signal::Cancel { symbol: "BTCUSDT".to_string(), order_id: 1 };
    assert_eq!(trade_fee(&cancel, 100_000_000_000), 0);
}

#[test]
fn tally_ratios() {
    let mut t = BacktestTally::new();
    t.record_trade(1_000, 10);
    t.record_trade(-500, 10);
    t.record_trade(0, 10);
    assert_eq!(t.yield_bp(10_000), 470);
    assert_eq!(t.profit_factor_bp(), 20_000);
    assert_eq!(t.avg_win(), 1_000);
    assert_eq!(t.avg_loss(), 500);
    let mut l = BacktestTally::new();
    l.record_trade(-500, 10);
    assert_eq!(l.yield_bp(7), -728_571);
    assert_eq!(l.avg_win(), 0);
    let empty = BacktestTally::new();
    assert_eq!(empty.profit_factor_bp(), 0);
    assert_eq!(empty.yield_bp(1), 0);
}
