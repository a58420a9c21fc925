use trading_engine::filter::DataFilter;
use trading_engine::market::{AggrTradesEvent, MarketEvent, OrderBook, TradeEvent};

fn trade(id: u64, time: u64, price: &str) -> MarketEvent {
    MarketEvent::Trade(TradeEvent {
        event_time: time,
        symbol: "BTCUSDT".to_string(),
        trade_id: id,
        price: price.to_string(),
        qty: "0.5".to_string(),
        buyer_order_id: 1,
        seller_order_id: 2,
        is_buyer_maker: false,
    })
}

fn agg(id: u64, time: u64, price: &str) -> MarketEvent {
    MarketEvent::AggrTrade(AggrTradesEvent {
        event_time: time,
        symbol: "BTCUSDT".to_string(),
        aggregated_trade_id: id,
        price: price.to_string(),
        qty: "1".to_string(),
        first_break_trade_id: 1,
        last_break_trade_id: 2,
        is_buyer_maker: true,
    })
}

#[test]
fn duplicate_trade_is_dropped() {
    let mut f = DataFilter::new(50_000);
    assert!(f.should_process(&trade(100, 1000, "100")));
    assert!(!f.should_process(&trade(100, 1001, "100")));
    assert_eq!(f.total_received, 2);
    assert_eq!(f.duplicate_count, 1);
    assert_eq!(f.get_quality_score(), 5_000);
}

#[test]
fn out_of_order_trade_is_dropped() {
    let mut f = DataFilter::new(50_000);
    assert!(f.should_process(&trade(1, 1000, "100")));
    assert!(!f.should_process(&trade(2, 999, "100")));
    assert_eq!(f.total_received, 2);
    assert_eq!(f.out_of_order_count, 1);
    assert_eq!(f.duplicate_count, 0);
}

#[test]
fn outlier_trade_is_dropped_and_reference_kept() {
    let mut f = DataFilter::new(50_000);
    assert!(f.should_process(&trade(1, 1000, "100")));
    assert!(f.should_process(&trade(2, 1001, "100")));
    assert!(!f.should_process(&trade(3, 1002, "110")));
    assert_eq!(f.outlier_count, 1);
    assert_eq!(f.last_price(), Some(10_000_000_000));
}

#[test]
fn move_at_threshold_is_accepted() {
    let mut f = DataFilter::new(50_000);
    assert!(f.should_process(&trade(1, 1000, "100")));
    assert!(f.should_process(&trade(2, 1001, "105")));
    assert_eq!(f.outlier_count, 0);
}

#[test]
fn first_trade_accepted_whatever_its_id() {
    let mut f = DataFilter::new(50_000);
    assert!(f.should_process(&trade(0, 5, "1")));
    let mut g = DataFilter::new(50_000);
    assert!(g.should_process(&trade(7, 0, "0")));
}

#[test]
fn order_books_always_pass() {
    let mut f = DataFilter::new(10_000);
    let book = MarketEvent::OrderBook(OrderBook { last_update_id: 1, bids: vec![], asks: vec![] });
    assert!(f.should_process(&book));
    assert!(f.should_process(&book));
    assert_eq!(f.total_received, 2);
    assert_eq!(f.get_quality_score(), 10_000);
}

#[test]
fn empty_filter_scores_full() {
    let f = DataFilter::new(50_000);
    assert_eq!(f.get_quality_score(), 10_000);
}

#[test]
fn agg_trades_keep_their_own_ids() {
    let mut f = DataFilter::new(50_000);
    assert!(f.should_process(&trade(100, 1000, "100")));
    assert!(f.should_process(&agg(5, 1001, "100")));
    assert!(!f.should_process(&agg(5, 1002, "100")));
    assert_eq!(f.duplicate_count, 1);
    assert_eq!(f.get_quality_score(), 6_666);
}
