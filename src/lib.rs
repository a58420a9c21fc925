//! A trading engine core: market-data quality filtering, the system state
//! machine, risk selection, a simulated execution ledger, live order planning,
//! historical-download planning and backtest bookkeeping.
pub mod account;
pub mod backtest;
pub mod decimal;
pub mod downloader;
pub mod filter;
pub mod futures;
pub mod history;
pub mod market;
pub mod metrics;
pub mod orders;
pub mod pipeline;
pub mod repository;
pub mod risk;
pub mod signal;
pub mod simulation;
pub mod state_machine;
pub mod strategy;
