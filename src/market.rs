//! Market events as the exchange delivers them: trades, aggregated trades,
//! order-book snapshots and depth updates. Prices and quantities stay decimal
//! strings here; they are read as fixed-point units where they are used.
use vstd::prelude::*;

verus! {

/// One executed match on the exchange.
#[derive(Clone, Debug)]
pub struct TradeEvent {
    pub event_time: u64,
    pub symbol: String,
    pub trade_id: u64,
    pub price: String,
    pub qty: String,
    pub buyer_order_id: u64,
    pub seller_order_id: u64,
    pub is_buyer_maker: bool,
}

/// Matches merged by the exchange because they share price and side.
#[derive(Clone, Debug)]
pub struct AggrTradesEvent {
    pub event_time: u64,
    pub symbol: String,
    pub aggregated_trade_id: u64,
    pub price: String,
    pub qty: String,
    pub first_break_trade_id: u64,
    pub last_break_trade_id: u64,
    pub is_buyer_maker: bool,
}

/// A price level of an order book: decimal price and quantity.
#[derive(Clone, Debug)]
pub struct PriceLevel {
    pub price: String,
    pub qty: String,
}

/// A top-of-book snapshot, best levels first.
#[derive(Clone, Debug)]
pub struct OrderBook {
    pub last_update_id: u64,
    pub bids: Vec<PriceLevel>,
    pub asks: Vec<PriceLevel>,
}

/// An incremental depth update.
#[derive(Clone, Debug)]
pub struct DepthOrderBookEvent {
    pub event_time: u64,
    pub symbol: String,
    pub first_update_id: u64,
    pub final_update_id: u64,
    pub bids: Vec<PriceLevel>,
    pub asks: Vec<PriceLevel>,
}

/// Everything the ingest side hands to the pipeline.
#[derive(Clone, Debug)]
pub enum MarketEvent {
    Trade(TradeEvent),
    AggrTrade(AggrTradesEvent),
    OrderBook(OrderBook),
    DepthUpdate(DepthOrderBookEvent),
}

} // verus!
