//! Verified logic of the OraiSwap contracts: the limit order book and its
//! matching engine, the token converter, the reward distributor, the pair
//! factory, the IBC transfer clients, the mixed swap router and the taxed
//! token. Storage, chain queries and message dispatch stay with the caller,
//! which hands the library what it read and carries out what it returns.
pub mod math;
pub mod asset;
pub mod text;
pub mod limit_order;
pub mod ibc;
pub mod ics20;
pub mod milky;
pub mod converter;
pub mod distributor;
pub mod factory;
pub mod router;
