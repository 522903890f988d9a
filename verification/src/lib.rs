//! Verified core of a last-minute trading bot for short-duration crypto
//! up/down prediction markets.

pub mod text;
pub mod market;
pub mod price;
pub mod types;
pub mod order;
pub mod book;
pub mod config;
pub mod engine;
pub mod api;
pub mod chainlink;
pub mod display;
pub mod pnl;
pub mod report;
pub mod frame;
