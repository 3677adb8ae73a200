//! The limit order book: orders, the matching engine, fees and rewards.
pub mod types;
pub mod order;
pub mod matching;
pub mod fees;
pub mod book;
pub mod flows;
pub mod settle;
pub mod listing;
pub mod store;
